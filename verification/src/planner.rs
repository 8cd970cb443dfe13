//! Execution planning: the parallelism strategy chosen from the measured
//! links, the split of a model's layers into pipeline stages over the
//! healthy nodes, and the size of the KV cache.
//!
//! Layer counts are split with exact integer arithmetic: each node of a
//! split takes `ceil(layers / nodes)` consecutive layers until none are
//! left, and a stage's weight is its share of the model's weight, rounded
//! down.

use vstd::prelude::*;
use crate::observability::MetricsCollector;
use crate::scheduler::node_ids_unique;
use crate::types::{
    ModelId, NodeId, ParallelismStrategy, NodeStatus, KvCachePolicy, KvCachePlan,
    PhysicalNode, LogicalCluster, LinkMeasurement, StagePlan, StageView,
};

verus! {

/// Model metadata for planning.
#[derive(Debug, Clone)]
pub struct ModelMetadata {
    pub parameter_count: u64,
    pub layer_count: u32,
    pub architecture: String,
    pub quantization: String,
    pub estimated_weight_bytes: u64,
}

/// Planning request.
#[derive(Debug, Clone)]
pub struct PlanningRequest {
    pub model_id: ModelId,
    pub model_metadata: ModelMetadata,
    pub context_length: u32,
    pub batch_size: u32,
    pub preferred_strategy: Option<ParallelismStrategy>,
}

/// Planning errors.
#[derive(Debug, Clone, PartialEq, Eq)]
pub enum PlanningError {
    NoAvailableNodes,
    ModelTooLarge,
    InvalidPlan(String),
    Internal(String),
}

/// What planning decides, apart from the performance estimate.
#[derive(Debug, Clone)]
pub struct PlanOutline {
    pub model_id: ModelId,
    pub strategy: ParallelismStrategy,
    pub stages: Vec<StagePlan>,
    pub kv_cache: KvCachePlan,
}

/// The execution planner, with the metrics it reports.
pub struct Planner {
    pub metrics: MetricsCollector,
}

/// Bandwidth assumed when no link has been measured, in Mbps.
pub const DEFAULT_BANDWIDTH_MBPS: u32 = 1000;

/// Latency assumed when no link has been measured, in microseconds.
pub const DEFAULT_LATENCY_US: u32 = 1000;

/// KV-cache bytes per token and layer: two heads of 4096 two-byte values.
pub const KV_BYTES_PER_TOKEN_PER_LAYER: u64 = 16384;

pub open spec fn bandwidth_sum(links: Seq<LinkMeasurement>) -> int
    decreases links.len(),
{
    if links.len() == 0 {
        0
    } else {
        bandwidth_sum(links.drop_last()) + links.last().bandwidth_mbps
    }
}

pub open spec fn latency_sum(links: Seq<LinkMeasurement>) -> int
    decreases links.len(),
{
    if links.len() == 0 {
        0
    } else {
        latency_sum(links.drop_last()) + links.last().latency_us
    }
}

/// The divisor the averages use: the number of links as a `u32`.
pub open spec fn link_divisor(links: Seq<LinkMeasurement>) -> u32 {
    links.len() as u32
}

/// The averages are defined: the sums fit in a `u32` and the number of
/// links, taken as a `u32`, is not zero when there are links.
pub open spec fn averages_defined(links: Seq<LinkMeasurement>) -> bool {
    &&& bandwidth_sum(links) <= u32::MAX
    &&& latency_sum(links) <= u32::MAX
    &&& (links.len() == 0 || link_divisor(links) != 0)
}

pub open spec fn average_bandwidth(links: Seq<LinkMeasurement>) -> int {
    if links.len() == 0 {
        DEFAULT_BANDWIDTH_MBPS as int
    } else {
        bandwidth_sum(links) / (link_divisor(links) as int)
    }
}

pub open spec fn average_latency(links: Seq<LinkMeasurement>) -> int {
    if links.len() == 0 {
        DEFAULT_LATENCY_US as int
    } else {
        latency_sum(links) / (link_divisor(links) as int)
    }
}

/// Strategy for a network with the given average bandwidth and latency.
pub open spec fn strategy_for(bandwidth: int, latency: int) -> ParallelismStrategy {
    if bandwidth >= 10000 && latency < 100 {
        ParallelismStrategy::PipelineHybrid
    } else if bandwidth >= 2500 && latency < 500 {
        ParallelismStrategy::Pipeline
    } else if bandwidth >= 1000 {
        ParallelismStrategy::PipelineHybrid
    } else {
        ParallelismStrategy::Pipeline
    }
}

pub open spec fn chosen_strategy(preferred: Option<ParallelismStrategy>, links: Seq<LinkMeasurement>) -> ParallelismStrategy {
    match preferred {
        Some(s) => s,
        None => strategy_for(average_bandwidth(links), average_latency(links)),
    }
}

pub open spec fn cuda_prefix() -> Seq<char> {
    seq!['c', 'u', 'd', 'a', ':']
}

pub open spec fn cpu_device() -> Seq<char> {
    seq!['c', 'p', 'u', ':', '0']
}

/// The device a node's stage runs on: its first GPU, else its CPU.
pub open spec fn device_for(node: PhysicalNode) -> Seq<char> {
    if node.capabilities.gpus.len() > 0 {
        cuda_prefix() + node.capabilities.gpus@[0].id@
    } else {
        cpu_device()
    }
}

pub open spec fn min_int(a: int, b: int) -> int {
    if a <= b {
        a
    } else {
        b
    }
}

pub open spec fn ceil_div(a: int, b: int) -> int {
    (a + b - 1) / b
}

/// The layers `start..end`.
pub open spec fn layer_range(start: int, end: int) -> Seq<u32> {
    Seq::new((end - start) as nat, |k: int| (start + k) as u32)
}

/// The weight of `len` of `total_layers` layers of a model weighing `total_weight` bytes.
pub open spec fn stage_weight(len: int, total_weight: int, total_layers: int) -> int {
    total_weight * len / total_layers
}

pub open spec fn has_gpu(node: PhysicalNode) -> bool {
    node.capabilities.gpus.len() > 0
}

/// The healthy nodes, in order.
pub open spec fn healthy(nodes: Seq<PhysicalNode>) -> Seq<PhysicalNode>
    decreases nodes.len(),
{
    if nodes.len() == 0 {
        Seq::empty()
    } else {
        let r = healthy(nodes.drop_last());
        if nodes.last().status == NodeStatus::Healthy {
            r.push(nodes.last())
        } else {
            r
        }
    }
}

/// The nodes with (`gpu`) or without (`!gpu`) a GPU, in order.
pub open spec fn with_gpu(nodes: Seq<PhysicalNode>, gpu: bool) -> Seq<PhysicalNode>
    decreases nodes.len(),
{
    if nodes.len() == 0 {
        Seq::empty()
    } else {
        let r = with_gpu(nodes.drop_last(), gpu);
        if has_gpu(nodes.last()) == gpu {
            r.push(nodes.last())
        } else {
            r
        }
    }
}

/// Stages over `nodes`, numbered from `first_id`: each node takes the next
/// `per` layers from `start` on, up to `layers`, and a node left with none
/// gets no stage. `device_of` picks each stage's device.
pub open spec fn spread(
    nodes: Seq<PhysicalNode>,
    first_id: int,
    start: int,
    per: int,
    layers: int,
    weight: int,
) -> Seq<StageView>
    decreases nodes.len(),
{
    if nodes.len() == 0 {
        Seq::empty()
    } else {
        let end = min_int(start + per, layers);
        let rest = spread(nodes.drop_first(), first_id + 1, end, per, layers, weight);
        if start < end {
            seq![StageView {
                id: first_id as u32,
                node_id: nodes[0].id,
                device: device_for(nodes[0]),
                layers: layer_range(start, end),
                weight_bytes: stage_weight(end - start, weight, layers) as u64,
            }] + rest
        } else {
            rest
        }
    }
}

/// The first layer left over after `spread` over `nodes`.
pub open spec fn spread_end(nodes: Seq<PhysicalNode>, start: int, per: int, layers: int) -> int
    decreases nodes.len(),
{
    if nodes.len() == 0 {
        start
    } else {
        spread_end(nodes.drop_first(), min_int(start + per, layers), per, layers)
    }
}

/// Pipeline split: the layers spread evenly over the healthy nodes.
pub open spec fn pipeline_stages(healthy_nodes: Seq<PhysicalNode>, layers: int, weight: int) -> Seq<StageView> {
    spread(healthy_nodes, 0, 0, ceil_div(layers, healthy_nodes.len() as int), layers, weight)
}

/// Hybrid split: the layers spread over the healthy GPU nodes; layers left
/// over go to the first healthy CPU-only node. Without GPU nodes it is the
/// pipeline split.
pub open spec fn hybrid_stages(healthy_nodes: Seq<PhysicalNode>, layers: int, weight: int) -> Seq<StageView> {
    let gpus = with_gpu(healthy_nodes, true);
    let cpus = with_gpu(healthy_nodes, false);
    if gpus.len() == 0 {
        pipeline_stages(healthy_nodes, layers, weight)
    } else {
        let per = ceil_div(layers, gpus.len() as int);
        let s = spread(gpus, 0, 0, per, layers, weight);
        let cur = spread_end(gpus, 0, per, layers);
        if cur < layers && cpus.len() > 0 {
            s.push(StageView {
                id: s.len() as u32,
                node_id: cpus[0].id,
                device: cpu_device(),
                layers: layer_range(cur, layers),
                weight_bytes: stage_weight(layers - cur, weight, layers) as u64,
            })
        } else {
            s
        }
    }
}

/// The stages of a strategy; strategies other than the hybrid one use the
/// pipeline split.
pub open spec fn partition(
    nodes: Seq<PhysicalNode>,
    strategy: ParallelismStrategy,
    layers: int,
    weight: int,
) -> Seq<StageView> {
    let h = healthy(nodes);
    if h.len() == 0 {
        seq![local_stage(layers, weight)]
    } else {
        match strategy {
            ParallelismStrategy::PipelineHybrid => hybrid_stages(h, layers, weight),
            _ => pipeline_stages(h, layers, weight),
        }
    }
}

/// The node id a stage on the planning host itself carries: the nil UUID.
pub const LOCAL_NODE: NodeId = 0;

/// The one stage of a plan made with no healthy node: every layer, and the
/// whole weight, on the planning host's CPU.
pub open spec fn local_stage(layers: int, weight: int) -> StageView {
    StageView {
        id: 0,
        node_id: LOCAL_NODE,
        device: cpu_device(),
        layers: layer_range(0, layers),
        weight_bytes: weight as u64,
    }
}

pub open spec fn stages_view(s: Seq<StagePlan>) -> Seq<StageView> {
    s.map_values(|p: StagePlan| p@)
}

pub open spec fn kv_cache_bytes(context_length: int, layer_count: int) -> int {
    KV_BYTES_PER_TOKEN_PER_LAYER * context_length * layer_count
}

/// The KV cache fits in a `u64` count of bytes.
pub open spec fn kv_cache_fits(request: PlanningRequest) -> bool {
    kv_cache_bytes(request.context_length as int, request.model_metadata.layer_count as int) <= u64::MAX
}

pub open spec fn kv_cache_for(request: PlanningRequest, device_memory_bytes: u64) -> KvCachePlan {
    let bytes = kv_cache_bytes(request.context_length as int, request.model_metadata.layer_count as int);
    KvCachePlan {
        policy: if bytes > device_memory_bytes {
            KvCachePolicy::StageLocalWithHostSpill
        } else {
            KvCachePolicy::StageLocal
        },
        reserved_bytes: bytes as u64,
    }
}

/// The nodes at the indices `idx`, in order.
pub open spec fn picked(nodes: Seq<PhysicalNode>, idx: Seq<usize>) -> Seq<PhysicalNode> {
    idx.map_values(|j: usize| nodes[j as int])
}

proof fn lemma_picked_push(nodes: Seq<PhysicalNode>, idx: Seq<usize>, j: usize)
    ensures
        picked(nodes, idx.push(j)) == picked(nodes, idx).push(nodes[j as int]),
{
    assert(picked(nodes, idx.push(j)) =~= picked(nodes, idx).push(nodes[j as int]));
}

proof fn lemma_spread_step(
    nodes: Seq<PhysicalNode>,
    i: int,
    start: int,
    per: int,
    layers: int,
    weight: int,
)
    requires
        0 <= i < nodes.len(),
    ensures
        ({
            let end = min_int(start + per, layers);
            let rest = spread(nodes.skip(i + 1), i + 1, end, per, layers, weight);
            &&& spread(nodes.skip(i), i, start, per, layers, weight) == (if start < end {
                seq![StageView {
                    id: i as u32,
                    node_id: nodes[i].id,
                    device: device_for(nodes[i]),
                    layers: layer_range(start, end),
                    weight_bytes: stage_weight(end - start, weight, layers) as u64,
                }] + rest
            } else {
                rest
            })
            &&& spread_end(nodes.skip(i), start, per, layers) == spread_end(nodes.skip(i + 1), end, per, layers)
        }),
{
    assert(nodes.skip(i).drop_first() =~= nodes.skip(i + 1));
    assert(nodes.skip(i)[0] == nodes[i]);
}

proof fn lemma_weight_bound(len: int, weight: int, layers: int)
    requires
        0 <= len <= layers,
        0 < layers,
        0 <= weight <= u64::MAX,
    ensures
        0 <= stage_weight(len, weight, layers) <= weight,
        weight * len <= u64::MAX * layers,
{
    assert(weight * len <= weight * layers) by (nonlinear_arith)
        requires 0 <= len <= layers, 0 <= weight;
    assert(weight * layers / layers == weight) by (nonlinear_arith)
        requires 0 < layers;
    assert(weight * len / layers <= weight * layers / layers) by (nonlinear_arith)
        requires weight * len <= weight * layers, 0 < layers;
    assert(0 <= weight * len) by (nonlinear_arith)
        requires 0 <= len, 0 <= weight;
    assert(weight * len <= u64::MAX * layers) by (nonlinear_arith)
        requires weight * len <= weight * layers, weight <= u64::MAX, 0 < layers;
    assert(0 <= weight * len / layers) by (nonlinear_arith)
        requires 0 <= weight * len, 0 < layers;
}

/// The layers `start..end` as a vector.
fn layer_list(start: u32, end: u32) -> (r: Vec<u32>)
    requires
        start <= end,
    ensures
        r@ == layer_range(start as int, end as int),
{
    let mut r: Vec<u32> = Vec::new();
    let mut k: u32 = start;
    while k < end
        invariant
            start <= k <= end,
            r@ == layer_range(start as int, k as int),
        decreases end - k,
    {
        r.push(k);
        k = k + 1;
        assert(r@ =~= layer_range(start as int, k as int));
    }
    r
}

/// The weight of `len` of `total_layers` layers, rounded down.
pub fn estimate_stage_weight(len: u32, total_weight_bytes: u64, total_layers: u32) -> (r: u64)
    requires
        len <= total_layers,
        total_layers > 0,
    ensures
        r == stage_weight(len as int, total_weight_bytes as int, total_layers as int),
{
    proof {
        lemma_weight_bound(len as int, total_weight_bytes as int, total_layers as int);
    }
    let w: u128 = total_weight_bytes as u128;
    assert(w * (len as u128) <= u64::MAX * total_layers) by (nonlinear_arith)
        requires w == total_weight_bytes, total_weight_bytes * len <= u64::MAX * total_layers;
    assert(u64::MAX * total_layers <= u128::MAX) by (nonlinear_arith)
        requires total_layers <= u32::MAX;
    let p: u128 = w * (len as u128);
    (p / (total_layers as u128)) as u64
}

impl Planner {
    /// A planner reporting its metrics as the `planner` service.
    pub fn new() -> (r: Planner)
        ensures
            r.metrics.service_name@ == "planner"@,
    {
        proof {
            reveal_strlit("planner");
        }
        Planner { metrics: MetricsCollector::new(String::from_str("planner")) }
    }

    /// Average bandwidth of the measured links; 1000 Mbps when none is measured.
    pub fn calculate_average_bandwidth(&self, links: &Vec<LinkMeasurement>) -> (r: u32)
        requires
            averages_defined(links@),
        ensures
            r == average_bandwidth(links@),
    {
        if links.len() == 0 {
            return DEFAULT_BANDWIDTH_MBPS;
        }
        let mut total: u32 = 0;
        let mut i: usize = 0;
        while i < links.len()
            invariant
                i <= links@.len(),
                averages_defined(links@),
                total == bandwidth_sum(links@.take(i as int)),
            decreases links@.len() - i,
        {
            assert(links@.take(i + 1).drop_last() =~= links@.take(i as int));
            proof {
                lemma_bandwidth_sum_prefix(links@, i + 1);
            }
            total = total + links[i].bandwidth_mbps;
            i = i + 1;
        }
        assert(links@.take(i as int) =~= links@);
        total / (links.len() as u32)
    }

    /// Average latency of the measured links; 1000 us when none is measured.
    pub fn calculate_average_latency(&self, links: &Vec<LinkMeasurement>) -> (r: u32)
        requires
            averages_defined(links@),
        ensures
            r == average_latency(links@),
    {
        if links.len() == 0 {
            return DEFAULT_LATENCY_US;
        }
        let mut total: u32 = 0;
        let mut i: usize = 0;
        while i < links.len()
            invariant
                i <= links@.len(),
                averages_defined(links@),
                total == latency_sum(links@.take(i as int)),
            decreases links@.len() - i,
        {
            assert(links@.take(i + 1).drop_last() =~= links@.take(i as int));
            proof {
                lemma_latency_sum_prefix(links@, i + 1);
            }
            total = total + links[i].latency_us;
            i = i + 1;
        }
        assert(links@.take(i as int) =~= links@);
        total / (links.len() as u32)
    }

    /// The preferred strategy if the request names one, else the one the
    /// average link bandwidth and latency call for.
    pub fn select_strategy(&self, request: &PlanningRequest, cluster: &LogicalCluster) -> (r: ParallelismStrategy)
        requires
            averages_defined(cluster.topology.links@),
        ensures
            r == chosen_strategy(request.preferred_strategy, cluster.topology.links@),
    {
        if let Some(s) = request.preferred_strategy {
            return s;
        }
        let bw = self.calculate_average_bandwidth(&cluster.topology.links);
        let lat = self.calculate_average_latency(&cluster.topology.links);
        if bw >= 10000 && lat < 100 {
            ParallelismStrategy::PipelineHybrid
        } else if bw >= 2500 && lat < 500 {
            ParallelismStrategy::Pipeline
        } else if bw >= 1000 {
            ParallelismStrategy::PipelineHybrid
        } else {
            ParallelismStrategy::Pipeline
        }
    }

    /// The device a stage on `node` runs on: `cuda:<id>` of its first GPU,
    /// else `cpu:0`.
    pub fn select_device(&self, node: &PhysicalNode) -> (r: String)
        ensures
            r@ == device_for(*node),
    {
        if node.capabilities.gpus.len() > 0 {
            let mut s = String::from_str("cuda:");
            s.append(node.capabilities.gpus[0].id.as_str());
            proof {
                reveal_strlit("cuda:");
            }
            s
        } else {
            proof {
                reveal_strlit("cpu:0");
            }
            String::from_str("cpu:0")
        }
    }

    /// Indices of the healthy nodes, in order.
    fn healthy_indices(nodes: &Vec<PhysicalNode>) -> (r: Vec<usize>)
        ensures
            picked(nodes@, r@) == healthy(nodes@),
            forall|k: int| 0 <= k < r@.len() ==> r@[k] < nodes@.len(),
    {
        let mut r: Vec<usize> = Vec::new();
        let mut i: usize = 0;
        assert(picked(nodes@, r@) =~= healthy(nodes@.take(0)));
        while i < nodes.len()
            invariant
                i <= nodes@.len(),
                picked(nodes@, r@) == healthy(nodes@.take(i as int)),
                forall|k: int| 0 <= k < r@.len() ==> r@[k] < nodes@.len(),
            decreases nodes@.len() - i,
        {
            assert(nodes@.take(i + 1).drop_last() =~= nodes@.take(i as int));
            if nodes[i].status == NodeStatus::Healthy {
                proof {
                    lemma_picked_push(nodes@, r@, i);
                }
                r.push(i);
            }
            i = i + 1;
        }
        assert(nodes@.take(i as int) =~= nodes@);
        r
    }

    /// Those of `idx` whose node has (`gpu`) or has no (`!gpu`) GPU, in order.
    fn gpu_indices(nodes: &Vec<PhysicalNode>, idx: &Vec<usize>, gpu: bool) -> (r: Vec<usize>)
        requires
            forall|k: int| 0 <= k < idx@.len() ==> idx@[k] < nodes@.len(),
        ensures
            picked(nodes@, r@) == with_gpu(picked(nodes@, idx@), gpu),
            forall|k: int| 0 <= k < r@.len() ==> r@[k] < nodes@.len(),
    {
        let ghost src = picked(nodes@, idx@);
        let mut r: Vec<usize> = Vec::new();
        let mut i: usize = 0;
        assert(picked(nodes@, r@) =~= with_gpu(src.take(0), gpu));
        while i < idx.len()
            invariant
                i <= idx@.len(),
                src == picked(nodes@, idx@),
                forall|k: int| 0 <= k < idx@.len() ==> idx@[k] < nodes@.len(),
                picked(nodes@, r@) == with_gpu(src.take(i as int), gpu),
                forall|k: int| 0 <= k < r@.len() ==> r@[k] < nodes@.len(),
            decreases idx@.len() - i,
        {
            assert(src.take(i + 1).drop_last() =~= src.take(i as int));
            assert(src.take(i + 1).last() == nodes@[idx@[i as int] as int]);
            let j = idx[i];
            if (nodes[j].capabilities.gpus.len() > 0) == gpu {
                proof {
                    lemma_picked_push(nodes@, r@, j);
                }
                r.push(j);
            }
            i = i + 1;
        }
        assert(src.take(i as int) =~= src);
        r
    }

    /// Spreads the layers over the nodes `idx` picks, `per` layers each,
    /// numbering the stages by position; returns them and the first layer
    /// left over.
    fn spread_layers(&self, nodes: &Vec<PhysicalNode>, idx: &Vec<usize>, per: u32, layers: u32, weight: u64) -> (r: (Vec<StagePlan>, u32))
        requires
            forall|k: int| 0 <= k < idx@.len() ==> idx@[k] < nodes@.len(),
        ensures
            stages_view(r.0@) == spread(picked(nodes@, idx@), 0, 0, per as int, layers as int, weight as int),
            r.1 == spread_end(picked(nodes@, idx@), 0, per as int, layers as int),
            r.1 <= layers,
    {
        let ghost ns = picked(nodes@, idx@);
        let mut stages: Vec<StagePlan> = Vec::new();
        let mut current: u32 = 0;
        let mut i: usize = 0;
        assert(ns.skip(0) =~= ns);
        while i < idx.len()
            invariant
                i <= idx@.len(),
                ns == picked(nodes@, idx@),
                ns.len() == idx@.len(),
                forall|k: int| 0 <= k < idx@.len() ==> idx@[k] < nodes@.len(),
                current <= layers,
                spread(ns, 0, 0, per as int, layers as int, weight as int)
                    == stages_view(stages@) + spread(ns.skip(i as int), i as int, current as int, per as int, layers as int, weight as int),
                spread_end(ns, 0, per as int, layers as int) == spread_end(ns.skip(i as int), current as int, per as int, layers as int),
            decreases idx@.len() - i,
        {
            proof {
                lemma_spread_step(ns, i as int, current as int, per as int, layers as int, weight as int);
            }
            let node = &nodes[idx[i]];
            assert(ns[i as int] == *node);
            let end: u32 = if per > layers - current { layers } else { current + per };
            if current < end {
                let layer_ids = layer_list(current, end);
                let w = estimate_stage_weight(end - current, weight, layers);
                let device = self.select_device(node);
                let stage = StagePlan {
                    id: i as u32,
                    node_id: node.id,
                    device,
                    layers: layer_ids,
                    weight_bytes: w,
                };
                let ghost before = stages@;
                stages.push(stage);
                proof {
                    assert(stages_view(stages@) =~= stages_view(before).push(stage@));
                    let rest = spread(ns.skip(i + 1), i + 1, end as int, per as int, layers as int, weight as int);
                    assert(stages_view(before) + (seq![stage@] + rest) =~= stages_view(stages@) + rest);
                }
                current = end;
            } else {
                assert(end == current);
            }
            i = i + 1;
        }
        assert(ns.skip(i as int) =~= Seq::<PhysicalNode>::empty());
        assert(stages_view(stages@) + Seq::<StageView>::empty() =~= stages_view(stages@));
        (stages, current)
    }

    /// Splits the model's layers into stages over the healthy nodes, as
    /// `strategy` calls for; with no healthy node, the whole model is one
    /// stage on the planning host's CPU.
    pub fn partition_model(&self, request: &PlanningRequest, cluster: &LogicalCluster, strategy: ParallelismStrategy) -> (r: Result<Vec<StagePlan>, PlanningError>)
        requires
            node_ids_unique(cluster.nodes@),
        ensures
            r matches Ok(stages) && stages_view(stages@) == partition(
                cluster.nodes@,
                strategy,
                request.model_metadata.layer_count as int,
                request.model_metadata.estimated_weight_bytes as int,
            ),
    {
        let nodes = &cluster.nodes;
        let healthy_idx = Self::healthy_indices(nodes);
        let layers = request.model_metadata.layer_count;
        if healthy_idx.len() == 0 {
            proof {
                reveal_strlit("cpu:0");
            }
            let stage = StagePlan {
                id: 0,
                node_id: LOCAL_NODE,
                device: String::from_str("cpu:0"),
                layers: layer_list(0, layers),
                weight_bytes: request.model_metadata.estimated_weight_bytes,
            };
            assert(stage@.device =~= cpu_device());
            let mut stages: Vec<StagePlan> = Vec::new();
            stages.push(stage);
            assert(stages_view(stages@) =~= seq![stage@]);
            return Ok(stages);
        }
        let weight = request.model_metadata.estimated_weight_bytes;
        let ghost h = healthy(nodes@);
        match strategy {
            ParallelismStrategy::PipelineHybrid => {
                let gpu_idx = Self::gpu_indices(nodes, &healthy_idx, true);
                if gpu_idx.len() == 0 {
                    let per = ceil_div_u32(layers, healthy_idx.len());
                    let (stages, _) = self.spread_layers(nodes, &healthy_idx, per, layers, weight);
                    return Ok(stages);
                }
                let per = ceil_div_u32(layers, gpu_idx.len());
                let (mut stages, current) = self.spread_layers(nodes, &gpu_idx, per, layers, weight);
                if current < layers {
                    let cpu_idx = Self::gpu_indices(nodes, &healthy_idx, false);
                    if cpu_idx.len() > 0 {
                        let node = &nodes[cpu_idx[0]];
                        let layer_ids = layer_list(current, layers);
                        let w = estimate_stage_weight(layers - current, weight, layers);
                        proof {
                            reveal_strlit("cpu:0");
                        }
                        let stage = StagePlan {
                            id: stages.len() as u32,
                            node_id: node.id,
                            device: String::from_str("cpu:0"),
                            layers: layer_ids,
                            weight_bytes: w,
                        };
                        assert(stage@.device =~= cpu_device());
                        assert(node.id == picked(nodes@, cpu_idx@)[0].id);
                        let ghost before = stages@;
                        stages.push(stage);
                        assert(stages_view(stages@) =~= stages_view(before).push(stage@));
                    }
                }
                Ok(stages)
            },
            _ => {
                let per = ceil_div_u32(layers, healthy_idx.len());
                let (stages, _) = self.spread_layers(nodes, &healthy_idx, per, layers, weight);
                Ok(stages)
            },
        }
    }

    /// Sizes the KV cache: 16384 bytes per token of context and layer; it
    /// spills to host memory when it exceeds the cluster's device memory.
    pub fn plan_kv_cache(&self, request: &PlanningRequest, cluster: &LogicalCluster) -> (r: KvCachePlan)
        requires
            kv_cache_fits(*request),
        ensures
            r == kv_cache_for(*request, cluster.logical_resources.device_memory_bytes),
    {
        let ctx = request.context_length as u64;
        let layers = request.model_metadata.layer_count as u64;
        assert(KV_BYTES_PER_TOKEN_PER_LAYER * ctx <= u64::MAX) by (nonlinear_arith)
            requires ctx <= u32::MAX;
        let per_layer: u64 = KV_BYTES_PER_TOKEN_PER_LAYER * ctx;
        let total: u64 = per_layer * layers;
        let policy = if total > cluster.logical_resources.device_memory_bytes {
            KvCachePolicy::StageLocalWithHostSpill
        } else {
            KvCachePolicy::StageLocal
        };
        KvCachePlan { policy, reserved_bytes: total }
    }

    /// Plans the execution of a model on a cluster: the strategy, the
    /// stages and the KV cache. The performance estimate is computed apart,
    /// from the stages.
    pub fn create_plan(&self, request: PlanningRequest, cluster: &LogicalCluster) -> (r: Result<PlanOutline, PlanningError>)
        requires
            averages_defined(cluster.topology.links@),
            kv_cache_fits(request),
            node_ids_unique(cluster.nodes@),
        ensures
            r matches Ok(p) && {
                let strategy = chosen_strategy(request.preferred_strategy, cluster.topology.links@);
                &&& p.model_id@ == request.model_id@
                &&& p.strategy == strategy
                &&& stages_view(p.stages@) == partition(
                        cluster.nodes@,
                        strategy,
                        request.model_metadata.layer_count as int,
                        request.model_metadata.estimated_weight_bytes as int,
                    )
                &&& p.kv_cache == kv_cache_for(request, cluster.logical_resources.device_memory_bytes)
            },
    {
        let strategy = self.select_strategy(&request, cluster);
        let stages = match self.partition_model(&request, cluster, strategy) {
            Ok(s) => s,
            Err(e) => return Err(e),
        };
        let kv_cache = self.plan_kv_cache(&request, cluster);
        Ok(PlanOutline { model_id: request.model_id, strategy, stages, kv_cache })
    }
}

/// `ceil(a / b)` for a positive count `b`.
fn ceil_div_u32(a: u32, b: usize) -> (r: u32)
    requires
        b > 0,
    ensures
        r == ceil_div(a as int, b as int),
{
    let a128 = a as u128;
    let b128 = b as u128;
    let r: u128 = (a128 + b128 - 1) / b128;
    assert(r <= a128) by (nonlinear_arith)
        requires
            r == (a128 + b128 - 1) as int / b128 as int,
            b128 > 0,
            a128 >= 0,
    ;
    r as u32
}

proof fn lemma_bandwidth_sum_prefix(s: Seq<LinkMeasurement>, k: int)
    requires
        0 <= k <= s.len(),
    ensures
        bandwidth_sum(s.take(k)) <= bandwidth_sum(s),
        bandwidth_sum(s.take(k)) >= 0,
    decreases s.len() - k,
{
    if k < s.len() {
        lemma_bandwidth_sum_prefix(s, k + 1);
        assert(s.take(k + 1).drop_last() =~= s.take(k));
    } else {
        assert(s.take(k) =~= s);
    }
    lemma_bandwidth_sum_nonneg(s.take(k));
}

proof fn lemma_bandwidth_sum_nonneg(s: Seq<LinkMeasurement>)
    ensures
        bandwidth_sum(s) >= 0,
    decreases s.len(),
{
    if s.len() > 0 {
        lemma_bandwidth_sum_nonneg(s.drop_last());
    }
}

proof fn lemma_latency_sum_prefix(s: Seq<LinkMeasurement>, k: int)
    requires
        0 <= k <= s.len(),
    ensures
        latency_sum(s.take(k)) <= latency_sum(s),
        latency_sum(s.take(k)) >= 0,
    decreases s.len() - k,
{
    if k < s.len() {
        lemma_latency_sum_prefix(s, k + 1);
        assert(s.take(k + 1).drop_last() =~= s.take(k));
    } else {
        assert(s.take(k) =~= s);
    }
    lemma_latency_sum_nonneg(s.take(k));
}

proof fn lemma_latency_sum_nonneg(s: Seq<LinkMeasurement>)
    ensures
        latency_sum(s) >= 0,
    decreases s.len(),
{
    if s.len() > 0 {
        lemma_latency_sum_nonneg(s.drop_last());
    }
}

/// The layers of the stages, one stage after the other.
pub open spec fn all_layers(stages: Seq<StageView>) -> Seq<u32>
    decreases stages.len(),
{
    if stages.len() == 0 {
        Seq::empty()
    } else {
        stages[0].layers + all_layers(stages.drop_first())
    }
}

proof fn lemma_spread_cover(nodes: Seq<PhysicalNode>, first_id: int, start: int, per: int, layers: int, weight: int)
    requires
        0 <= start <= layers,
        per >= 0,
    ensures
        start <= spread_end(nodes, start, per, layers) <= layers,
        spread_end(nodes, start, per, layers) == min_int(start + nodes.len() * per, layers),
        all_layers(spread(nodes, first_id, start, per, layers, weight)) == layer_range(start, spread_end(nodes, start, per, layers)),
    decreases nodes.len(),
{
    if nodes.len() == 0 {
        assert(layer_range(start, start) =~= Seq::<u32>::empty());
    } else {
        let end = min_int(start + per, layers);
        let rest = nodes.drop_first();
        lemma_spread_cover(rest, first_id + 1, end, per, layers, weight);
        let e = spread_end(rest, end, per, layers);
        assert(nodes.len() * per == rest.len() * per + per) by (nonlinear_arith)
            requires
                nodes.len() == rest.len() + 1;
        assert(rest.len() * per >= 0) by (nonlinear_arith)
            requires
                per >= 0;
        let tail = spread(rest, first_id + 1, end, per, layers, weight);
        if start < end {
            let head = StageView {
                id: first_id as u32,
                node_id: nodes[0].id,
                device: device_for(nodes[0]),
                layers: layer_range(start, end),
                weight_bytes: stage_weight(end - start, weight, layers) as u64,
            };
            let all = seq![head] + tail;
            assert(all[0] == head);
            assert(all.drop_first() =~= tail);
            assert(layer_range(start, end) + layer_range(end, e) =~= layer_range(start, e));
        } else {
            assert(layer_range(start, end) =~= Seq::<u32>::empty());
        }
    }
}

proof fn lemma_ceil_cover(layers: int, n: int)
    requires
        layers >= 0,
        n > 0,
    ensures
        n * ceil_div(layers, n) >= layers,
        ceil_div(layers, n) >= 0,
{
    assert(n * ((layers + n - 1) / n) >= layers) by (nonlinear_arith)
        requires
            layers >= 0,
            n > 0;
    assert((layers + n - 1) / n >= 0) by (nonlinear_arith)
        requires
            layers >= 0,
            n > 0;
}

/// Every plan covers each layer exactly once and in order: the stages'
/// layers, one stage after the other, are the layers `0..layers`. This
/// holds for every strategy, and for the one local stage planned when no
/// node is healthy.
pub proof fn law_partition_covers_layers(nodes: Seq<PhysicalNode>, strategy: ParallelismStrategy, layers: int, weight: int)
    requires
        layers >= 0,
    ensures
        all_layers(partition(nodes, strategy, layers, weight)) == layer_range(0, layers),
{
    let h = healthy(nodes);
    if h.len() == 0 {
        let s = seq![local_stage(layers, weight)];
        assert(s.drop_first() =~= Seq::<StageView>::empty());
        assert(all_layers(s.drop_first()) == Seq::<u32>::empty());
        assert(all_layers(s) == s[0].layers + all_layers(s.drop_first()));
        assert(all_layers(s) =~= layer_range(0, layers));
        return;
    }
    lemma_ceil_cover(layers, h.len() as int);
    lemma_spread_cover(h, 0, 0, ceil_div(layers, h.len() as int), layers, weight);
    let gpus = with_gpu(h, true);
    if gpus.len() > 0 {
        let per = ceil_div(layers, gpus.len() as int);
        lemma_ceil_cover(layers, gpus.len() as int);
        lemma_spread_cover(gpus, 0, 0, per, layers, weight);
    }
}

/// The strategy follows the network when none is preferred: an excellent
/// network (at least 10000 Mbps on average, under 100 us) gets the hybrid
/// strategy, a good one (at least 2500 Mbps, under 500 us) plain pipeline
/// parallelism, an acceptable one (at least 1000 Mbps) the hybrid strategy
/// with CPU offload, and a poor one plain pipeline parallelism; a preferred
/// strategy is always taken.
pub proof fn law_strategy_follows_network(preferred: Option<ParallelismStrategy>, links: Seq<LinkMeasurement>)
    ensures
        preferred matches Some(p) ==> chosen_strategy(preferred, links) == p,
        preferred is None && average_bandwidth(links) >= 10000 && average_latency(links) < 100
            ==> chosen_strategy(preferred, links) == ParallelismStrategy::PipelineHybrid,
        preferred is None && average_bandwidth(links) >= 2500 && average_latency(links) < 500
            && !(average_bandwidth(links) >= 10000 && average_latency(links) < 100)
            ==> chosen_strategy(preferred, links) == ParallelismStrategy::Pipeline,
        preferred is None && average_bandwidth(links) >= 1000
            && !(average_bandwidth(links) >= 2500 && average_latency(links) < 500)
            ==> chosen_strategy(preferred, links) == ParallelismStrategy::PipelineHybrid,
        preferred is None && average_bandwidth(links) < 1000
            ==> chosen_strategy(preferred, links) == ParallelismStrategy::Pipeline,
{
}

} // verus!

