//! Data shared across the cluster: identifiers, node capabilities,
//! placements and execution plans.
//!
//! Node, cluster and session identifiers are UUIDs held as their 128-bit
//! value. Timestamps are milliseconds since the Unix epoch.

use vstd::prelude::*;
use crate::text::hex_digits;

verus! {

pub type NodeId = u128;

pub type ClusterId = u128;

pub type SessionId = u128;

pub type ModelId = String;

pub type TensorId = String;

/// Milliseconds since the Unix epoch.
pub type Timestamp = i64;

/// `chrono::Utc::now().timestamp_millis()`: the current time from the
/// system clock. A chrono date lies within about 262,143 years of the epoch,
/// so the count is below 10^16 in size.
#[verifier::external_body]
pub(crate) fn now_millis() -> (r: Timestamp)
    ensures
        -10_000_000_000_000_000 < r < 10_000_000_000_000_000,
{
    chrono::Utc::now().timestamp_millis()
}

/// `chrono::Utc::now().timestamp()`: the current time in whole seconds since
/// the Unix epoch; below 10^13 in size, as a chrono date is.
#[verifier::external_body]
pub(crate) fn now_secs() -> (r: i64)
    ensures
        -10_000_000_000_000 < r < 10_000_000_000_000,
{
    chrono::Utc::now().timestamp()
}

/// A fresh random identifier (`uuid::Uuid::new_v4`), as its 128-bit value.
#[verifier::external_body]
pub(crate) fn new_uuid() -> u128 {
    uuid::Uuid::new_v4().as_u128()
}

/// The hyphenated lowercase form of a UUID: its 32 hex digits, most
/// significant first, in groups of 8, 4, 4, 4 and 12 joined by `-`.
pub open spec fn uuid_text(v: u128) -> Seq<char> {
    let h = hex_digits(v as nat, 32);
    h.subrange(0, 8) + seq!['-'] + h.subrange(8, 12) + seq!['-'] + h.subrange(12, 16) + seq!['-']
        + h.subrange(16, 20) + seq!['-'] + h.subrange(20, 32)
}

/// `uuid::Uuid::from_u128(v).to_string()`: the hyphenated lowercase form.
#[verifier::external_body]
pub(crate) fn uuid_string(v: u128) -> (r: String)
    ensures
        r@ == uuid_text(v),
{
    uuid::Uuid::from_u128(v).to_string()
}

/// What `uuid::Uuid::parse_str` makes of a text: the UUID it spells, in any
/// of the forms the crate accepts, or nothing.
pub uninterp spec fn uuid_parse(s: Seq<char>) -> Option<u128>;

/// `uuid::Uuid::parse_str`: the UUID a text spells, as its 128-bit value;
/// the hyphenated form a UUID is written in reads back as that UUID.
#[verifier::external_body]
pub(crate) fn parse_uuid(s: &str) -> (r: Option<u128>)
    ensures
        r == uuid_parse(s@),
        forall|v: u128| s@ == #[trigger] uuid_text(v) ==> r == Some(v),
{
    match uuid::Uuid::parse_str(s) {
        Ok(u) => Some(u.as_u128()),
        Err(_) => None,
    }
}

/// GPU vendor.
#[derive(Debug, Clone, Copy, PartialEq, Eq, Structural)]
pub enum GpuVendor {
    Nvidia,
    Amd,
    Intel,
    Apple,
    Unknown,
}

/// Supported precision formats.
#[derive(Debug, Clone, Copy, PartialEq, Eq, Structural)]
pub enum Precision {
    Fp32,
    Fp16,
    Bf16,
    Int8,
    Int4,
    Fp8,
}

/// Runtime backend types.
#[derive(Debug, Clone, Copy, PartialEq, Eq, Structural)]
pub enum RuntimeBackend {
    GGML,
    CUDA,
    ROCm,
    MLX,
    Vulkan,
    CPU,
}

/// Current status of a node.
#[derive(Debug, Clone, Copy, PartialEq, Eq, Structural)]
pub enum NodeStatus {
    Healthy,
    Suspect,
    Unavailable,
    Draining,
    Maintenance,
    Offline,
}

/// Parallelism strategy.
#[derive(Debug, Clone, Copy, PartialEq, Eq, Structural)]
pub enum ParallelismStrategy {
    Pipeline,
    Tensor,
    PipelineHybrid,
    Expert,
    Data,
}

/// Role of a tensor placement.
#[derive(Debug, Clone, Copy, PartialEq, Eq, Structural)]
pub enum PlacementRole {
    Primary,
    Replica,
    WarmCopy,
}

/// Memory tier for placement decisions.
#[derive(Debug, Clone, Copy, PartialEq, Eq, Structural)]
pub enum MemoryTier {
    OnDeviceVram,
    LocalPinnedRam,
    LocalPageableRam,
    RemoteVram,
    RemotePinnedRam,
    RemotePageableRam,
    LocalNvme,
    RemoteNvme,
}

/// KV cache policy.
#[derive(Debug, Clone, Copy, PartialEq, Eq, Structural)]
pub enum KvCachePolicy {
    StageLocal,
    StageLocalWithHostSpill,
    Distributed,
}

/// CPU capabilities.
#[derive(Debug, Clone)]
pub struct CpuCapabilities {
    pub architecture: String,
    pub cores: u32,
    pub threads: u32,
    pub frequency_mhz: u32,
    pub features: Vec<String>,
    pub numa_nodes: u32,
}

/// GPU capabilities.
#[derive(Debug, Clone)]
pub struct GpuCapabilities {
    pub id: String,
    pub name: String,
    pub vendor: GpuVendor,
    pub vram_bytes: u64,
    pub compute_capability: Option<String>,
    pub supports_peer_to_peer: bool,
    pub supports_nvml: bool,
    pub supported_precisions: Vec<Precision>,
}

/// Memory capabilities.
#[derive(Debug, Clone)]
pub struct MemoryCapabilities {
    pub total_bytes: u64,
    pub available_bytes: u64,
    pub bandwidth_mbps: u64,
}

/// Storage capabilities.
#[derive(Debug, Clone)]
pub struct StorageCapabilities {
    pub total_bytes: u64,
    pub available_bytes: u64,
    pub read_throughput_mbps: u32,
    pub write_throughput_mbps: u32,
}

/// Network interface.
#[derive(Debug, Clone)]
pub struct NetworkInterface {
    pub name: String,
    pub ip_address: String,
    pub mac_address: String,
    pub bandwidth_mbps: u32,
    pub supports_rdma: bool,
}

/// Network capabilities.
#[derive(Debug, Clone)]
pub struct NetworkCapabilities {
    pub interfaces: Vec<NetworkInterface>,
}

/// Hardware and software capabilities of a node.
#[derive(Debug, Clone)]
pub struct NodeCapabilities {
    pub cpu: CpuCapabilities,
    pub gpus: Vec<GpuCapabilities>,
    pub memory: MemoryCapabilities,
    pub storage: StorageCapabilities,
    pub network: NetworkCapabilities,
    pub supported_runtimes: Vec<RuntimeBackend>,
}

/// Time schedule for resource availability, e.g. `["22:00-07:00"]`.
#[derive(Debug, Clone)]
pub struct Schedule {
    pub allowed_hours: Vec<String>,
}

/// User-defined permissions for a node.
#[derive(Debug, Clone)]
pub struct NodePermissions {
    pub max_cpu_percent: u8,
    pub max_cpu_threads: Option<u32>,
    pub max_ram_bytes: u64,
    pub gpu_enabled: bool,
    pub max_vram_bytes: u64,
    pub max_storage_bytes: u64,
    pub allow_when_on_battery: bool,
    pub pause_when_user_active: bool,
    pub allowed_schedule: Option<Schedule>,
}

/// A tensor's shape and type, and where its copies are.
#[derive(Debug, Clone)]
pub struct TensorPlacement {
    pub tensor_id: TensorId,
    pub shape: Vec<usize>,
    pub dtype: String,
    pub placements: Vec<PhysicalPlacement>,
}

/// Physical location of a tensor.
#[derive(Debug)]
pub struct PhysicalPlacement {
    pub node_id: NodeId,
    pub device: String,
    pub offset: u64,
    pub length: u64,
    pub role: PlacementRole,
}

/// What a placement says.
pub struct PlacementView {
    pub node_id: NodeId,
    pub device: Seq<char>,
    pub offset: u64,
    pub length: u64,
    pub role: PlacementRole,
}

impl View for PhysicalPlacement {
    type V = PlacementView;

    open spec fn view(&self) -> PlacementView {
        PlacementView {
            node_id: self.node_id,
            device: self.device@,
            offset: self.offset,
            length: self.length,
            role: self.role,
        }
    }
}

impl Clone for PhysicalPlacement {
    fn clone(&self) -> (r: Self)
        ensures
            r@ == self@,
    {
        PhysicalPlacement {
            node_id: self.node_id,
            device: self.device.clone(),
            offset: self.offset,
            length: self.length,
            role: self.role,
        }
    }
}

/// KV cache plan.
#[derive(Debug, Clone, Copy)]
pub struct KvCachePlan {
    pub policy: KvCachePolicy,
    pub reserved_bytes: u64,
}

/// Plan for a single pipeline stage.
#[derive(Debug, Clone)]
pub struct StagePlan {
    pub id: u32,
    pub node_id: NodeId,
    pub device: String,
    pub layers: Vec<u32>,
    pub weight_bytes: u64,
}

/// What a stage plan says.
pub struct StageView {
    pub id: u32,
    pub node_id: NodeId,
    pub device: Seq<char>,
    pub layers: Seq<u32>,
    pub weight_bytes: u64,
}

impl View for StagePlan {
    type V = StageView;

    open spec fn view(&self) -> StageView {
        StageView {
            id: self.id,
            node_id: self.node_id,
            device: self.device@,
            layers: self.layers@,
            weight_bytes: self.weight_bytes,
        }
    }
}

/// Model shard specification.
#[derive(Debug, Clone)]
pub struct ModelShardSpec {
    pub model_id: ModelId,
    pub shard_id: u32,
    pub layers: Vec<u32>,
    pub format: String,
    pub quantization: String,
    pub bytes: u64,
    pub checksum: String,
}

/// Tensor specification.
#[derive(Debug, Clone)]
pub struct TensorSpec {
    pub tensor_id: TensorId,
    pub shape: Vec<usize>,
    pub dtype: String,
    pub bytes: u64,
}

/// A tensor allocated on a device.
#[derive(Debug, Clone)]
pub struct TensorHandle {
    pub tensor_id: TensorId,
    pub device: String,
    pub offset: u64,
    pub size: u64,
}

/// A loaded model shard.
#[derive(Debug, Clone, Copy)]
pub struct ShardHandle {
    pub shard_id: u32,
    pub backend: RuntimeBackend,
}

/// A request to run one stage on its input tensors.
#[derive(Debug, Clone)]
pub struct StageExecution {
    pub stage_id: u32,
    pub input_tensors: Vec<TensorHandle>,
    pub parameters: Vec<(String, String)>,
}

/// What running a stage produced.
#[derive(Debug, Clone)]
pub struct StageOutput {
    pub stage_id: u32,
    pub output_tensors: Vec<TensorHandle>,
    pub execution_time_ms: u32,
}

/// A request to move a tensor between devices.
#[derive(Debug, Clone)]
pub struct TensorTransfer {
    pub tensor_id: TensorId,
    pub from_device: String,
    pub to_device: String,
    pub bytes: u64,
}

/// Receipt of a completed tensor move.
#[derive(Debug, Clone)]
pub struct TransferReceipt {
    pub tensor_id: TensorId,
    pub bytes_transferred: u64,
    pub transfer_time_ms: u32,
}

/// Measured link performance between two nodes. The packet loss percentage
/// is carried as the bit pattern of its `f32` value.
#[derive(Debug, Clone)]
pub struct LinkMeasurement {
    pub from: NodeId,
    pub to: NodeId,
    pub transport: String,
    pub latency_us: u32,
    pub bandwidth_mbps: u32,
    pub jitter_us: u32,
    pub packet_loss_bits: u32,
}

/// GPU usage metrics. Floating-point readings are carried as the bit
/// patterns of their `f32` values.
#[derive(Debug, Clone)]
pub struct GpuUsage {
    pub device_id: String,
    pub utilization_percent_bits: u32,
    pub vram_used_bytes: u64,
    pub temperature_celsius_bits: u32,
    pub power_draw_watts_bits: Option<u32>,
}

/// Current resource usage of a node. Floating-point readings are carried as
/// the bit patterns of their `f32` values.
#[derive(Debug, Clone)]
pub struct NodeResources {
    pub cpu_usage_percent_bits: u32,
    pub memory_used_bytes: u64,
    pub memory_committed_bytes: u64,
    pub gpu_usage: Vec<GpuUsage>,
    pub network_tx_mbps_bits: u32,
    pub network_rx_mbps_bits: u32,
    pub temperature_celsius_bits: Option<u32>,
}

/// A physical node of the cluster.
#[derive(Debug, Clone)]
pub struct PhysicalNode {
    pub id: NodeId,
    pub name: String,
    pub hostname: String,
    pub cluster_id: ClusterId,
    pub capabilities: NodeCapabilities,
    pub resources: NodeResources,
    pub permissions: NodePermissions,
    pub status: NodeStatus,
    pub last_heartbeat: Timestamp,
    pub certificate_fingerprint: Option<String>,
}

/// Logical (schedulable) resources; the compute units are carried as the
/// bit pattern of their `f32` value.
#[derive(Debug, Clone, Copy)]
pub struct LogicalResources {
    pub cpu_compute_units_bits: u32,
    pub host_memory_bytes: u64,
    pub device_memory_bytes: u64,
    pub storage_bytes: u64,
    pub preferred_parallelism: ParallelismStrategy,
}

/// Topology information for a single node; the CPU score is carried as the
/// bit pattern of its `f32` value.
#[derive(Debug, Clone)]
pub struct NodeTopology {
    pub cpu_score_bits: u32,
    pub ram_usable_bytes: u64,
    pub devices: Vec<String>,
}

/// Cluster topology: per-node entries, keyed by node id, and link measurements.
#[derive(Debug, Clone)]
pub struct ClusterTopology {
    pub nodes: Vec<(NodeId, NodeTopology)>,
    pub links: Vec<LinkMeasurement>,
}

/// A logical cluster: its resource pool, its nodes (each id once) and its topology.
#[derive(Debug, Clone)]
pub struct LogicalCluster {
    pub id: ClusterId,
    pub name: String,
    pub logical_resources: LogicalResources,
    pub nodes: Vec<PhysicalNode>,
    pub topology: ClusterTopology,
}

/// Estimated performance of a plan, each figure carried as the bit pattern
/// of its `f32` value.
#[derive(Debug, Clone, Copy)]
pub struct PerformanceEstimate {
    pub load_seconds_bits: u32,
    pub prompt_tokens_per_second_bits: u32,
    pub decode_tokens_per_second_bits: u32,
}

/// Execution plan for a model.
#[derive(Debug, Clone)]
pub struct ExecutionPlan {
    pub model_id: ModelId,
    pub strategy: ParallelismStrategy,
    pub estimated: PerformanceEstimate,
    pub stages: Vec<StagePlan>,
    pub kv_cache: KvCachePlan,
}

/// Error types for cluster operations.
#[derive(Debug, Clone)]
pub enum ClusterError {
    NodeNotFound(NodeId),
    NodeUnavailable(NodeId),
    InsufficientResources(String),
    InvalidPlan(String),
    TensorNotFound(TensorId),
    TransportError(String),
    AuthenticationError(String),
    PermissionDenied(String),
}

} // verus!
