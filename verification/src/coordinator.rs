//! The coordinator's view of the cluster: the registered nodes, what the
//! node control requests do to them, and the heartbeat watchdog.
//!
//! A node joins as suspect with default permissions, becomes healthy with
//! its first heartbeat or probe, turns suspect after 10 seconds without a
//! heartbeat and is dropped after 30.

use vstd::prelude::*;
use crate::kvmap::{keys_unique, seq_to_map, lemma_map_absent, lemma_map_lookup, lemma_map_push, lemma_unique_push, lemma_map_update, lemma_map_remove};
use crate::pairing::{
    PairingManager, PairingRequest, PairingChallenge, PairingView, PendingView, PairingResponse, PairingError, DeviceCertificate,
    challenge_key, verify_outcome, time_ok, random_challenge, CHALLENGE_LIFETIME_SECS,
};
use crate::text::{hex_lower, hex_encode, decimal};
use crate::runtimes::common::{GIB, MIB};
use crate::types::{
    NodeId, ClusterId, NodeStatus, NodeCapabilities, NodeResources, NodePermissions, Schedule,
    PhysicalNode, CpuCapabilities, MemoryCapabilities, StorageCapabilities, NetworkCapabilities, NetworkInterface, GpuCapabilities, GpuVendor, Precision, RuntimeBackend,
    Timestamp, uuid_text, uuid_string, parse_uuid, uuid_parse, now_millis, now_secs,
};

verus! {

/// Why a node control request was refused.
#[derive(Debug, Clone, PartialEq, Eq)]
pub enum ControlError {
    InvalidArgument(String),
    NotFound(String),
    Internal(String),
}

/// A node's registration request.
#[derive(Debug, Clone)]
pub struct RegisterRequest {
    pub node_name: String,
    pub hostname: String,
    pub cluster_id: String,
    pub pairing_signature: Vec<u8>,
}

/// The answer to a registration.
#[derive(Debug, Clone)]
pub struct RegisterResponse {
    pub success: bool,
    pub node_id: String,
    pub device_certificate: Vec<u8>,
    pub error_message: String,
}

/// The answer to a heartbeat.
#[derive(Debug, Clone, Copy)]
pub struct HeartbeatResponse {
    pub acknowledged: bool,
    pub expected_sequence: u64,
}

/// The HTTP API's answer to a registration.
#[derive(Debug, Clone)]
pub struct RegisterNodeResponse {
    pub success: bool,
    pub node_id: String,
    pub error_message: Option<String>,
}

/// The HTTP API's answer to a heartbeat.
#[derive(Debug, Clone)]
pub struct ApiHeartbeatResponse {
    pub success: bool,
    pub error_message: Option<String>,
}

/// The answer to a plan preparation.
#[derive(Debug, Clone)]
pub struct PreparePlanResponse {
    pub accepted: bool,
    pub rejection_reason: String,
    pub estimated_load_time_ms: u32,
}

/// The answer to a drain request.
#[derive(Debug, Clone, Copy)]
pub struct DrainResponse {
    pub draining: bool,
    pub estimated_seconds: u32,
}

/// New permissions for a node, as the request carries them.
#[derive(Debug, Clone)]
pub struct SetPermissionsRequest {
    pub max_cpu_percent: u32,
    pub max_cpu_threads: u32,
    pub max_ram_bytes: u64,
    pub gpu_enabled: bool,
    pub max_vram_bytes: u64,
    pub max_storage_bytes: u64,
    pub allow_when_on_battery: bool,
    pub pause_when_user_active: bool,
    pub allowed_schedule: Vec<String>,
}

/// Kinds of node benchmarks.
#[derive(Debug, Clone, Copy, PartialEq, Eq, Structural)]
pub enum BenchmarkType {
    Unspecified,
    CpuMatrix,
    CpuMemory,
    GpuMatrix,
    NetworkLatency,
    NetworkBandwidth,
}

/// A benchmark's result: one metric, its value as the bit pattern of an
/// `f64`, and the time it took.
#[derive(Debug, Clone)]
pub struct BenchmarkResult {
    pub metric: String,
    pub value_bits: u64,
    pub duration_ms: u32,
}

/// The answer to a benchmark request: its result, or why it was not run.
#[derive(Debug, Clone)]
pub struct BenchmarkResponse {
    pub success: bool,
    pub result: Option<BenchmarkResult>,
    pub error_message: String,
}

/// The sums of the nodes' resources.
#[derive(Debug, Clone, Copy)]
pub struct ResourceTotals {
    pub cpu_cores: u64,
    pub host_memory_bytes: u64,
    pub device_memory_bytes: u64,
    pub storage_bytes: u64,
}

/// What a node looks like to the watchdog and the control requests.
pub struct NodeView {
    pub name: Seq<char>,
    pub hostname: Seq<char>,
    pub status: NodeStatus,
    pub last_heartbeat: Timestamp,
    pub fingerprint: Option<Seq<char>>,
    pub cluster_id: ClusterId,
    pub resources: NodeResources,
    pub capabilities: NodeCapabilities,
    pub permissions: NodePermissions,
}

pub open spec fn node_view(n: PhysicalNode) -> NodeView {
    NodeView {
        name: n.name@,
        hostname: n.hostname@,
        status: n.status,
        last_heartbeat: n.last_heartbeat,
        fingerprint: match n.certificate_fingerprint {
            Some(f) => Some(f@),
            None => None,
        },
        cluster_id: n.cluster_id,
        resources: n.resources,
        capabilities: n.capabilities,
        permissions: n.permissions,
    }
}

pub open spec fn node_pairs(s: Seq<PhysicalNode>) -> Seq<(NodeId, NodeView)> {
    s.map_values(|n: PhysicalNode| (n.id, node_view(n)))
}

/// A node as it joins: idle, with nothing known of its hardware and the
/// default permissions.
pub open spec fn joined_as_new(v: NodeView) -> bool {
    &&& v.resources.cpu_usage_percent_bits == 0
    &&& v.resources.memory_used_bytes == 0
    &&& v.resources.gpu_usage@.len() == 0
    &&& v.capabilities.cpu.cores == 0
    &&& v.capabilities.gpus@.len() == 0
    &&& v.capabilities.memory.total_bytes == 0
    &&& v.capabilities.supported_runtimes@.len() == 0
    &&& are_default_permissions(v.permissions)
}

/// The permissions a node joins with: 80% of its CPU, 16 GiB of RAM, the
/// GPU with 8 GiB of VRAM, 100 GiB of storage, not on battery, pausing while
/// its user is active, at any time.
pub open spec fn are_default_permissions(p: NodePermissions) -> bool {
    &&& p.max_cpu_percent == 80
    &&& p.max_cpu_threads is None
    &&& p.max_ram_bytes == 16 * GIB
    &&& p.gpu_enabled
    &&& p.max_vram_bytes == 8 * GIB
    &&& p.max_storage_bytes == 100 * GIB
    &&& !p.allow_when_on_battery
    &&& p.pause_when_user_active
    &&& p.allowed_schedule is None
}

/// The permissions `p` are those the request `req` sets: the CPU share cut
/// to a byte, no thread limit for 0, no schedule for an empty list.
pub open spec fn permissions_set_by(p: NodePermissions, req: SetPermissionsRequest) -> bool {
    &&& p.max_cpu_percent == req.max_cpu_percent as u8
    &&& p.max_cpu_threads == (if req.max_cpu_threads > 0 { Some(req.max_cpu_threads) } else { None::<u32> })
    &&& p.max_ram_bytes == req.max_ram_bytes
    &&& p.gpu_enabled == req.gpu_enabled
    &&& p.max_vram_bytes == req.max_vram_bytes
    &&& p.max_storage_bytes == req.max_storage_bytes
    &&& p.allow_when_on_battery == req.allow_when_on_battery
    &&& p.pause_when_user_active == req.pause_when_user_active
    &&& req.allowed_schedule@.len() == 0 ==> p.allowed_schedule is None
    &&& req.allowed_schedule@.len() > 0 ==> (p.allowed_schedule matches Some(s) && s.allowed_hours@.len() == req.allowed_schedule@.len()
        && forall|i: int| 0 <= i < s.allowed_hours@.len() ==> #[trigger] s.allowed_hours@[i]@ == req.allowed_schedule@[i]@)
}

/// Whole seconds between two millisecond times, rounded toward zero.
pub open spec fn whole_seconds(now: Timestamp, then: Timestamp) -> int {
    let d = now - then;
    if d >= 0 {
        d / 1000
    } else {
        -((-d) / 1000)
    }
}

/// A node's status after the watchdog looked at it at `now`.
pub open spec fn watched_status(n: NodeView, now: Timestamp) -> NodeStatus {
    if whole_seconds(now, n.last_heartbeat) > 30 {
        NodeStatus::Offline
    } else if whole_seconds(now, n.last_heartbeat) > 10 && n.status == NodeStatus::Healthy {
        NodeStatus::Suspect
    } else {
        n.status
    }
}

/// The nodes after the watchdog: those silent for more than 30 seconds
/// are dropped, healthy ones silent for more than 10 are suspect.
pub open spec fn after_watch(m: Map<NodeId, NodeView>, now: Timestamp) -> Map<NodeId, NodeView> {
    Map::new(
        |id: NodeId| m.contains_key(id) && whole_seconds(now, m[id].last_heartbeat) <= 30,
        |id: NodeId| NodeView { status: watched_status(m[id], now), ..m[id] },
    )
}

/// The name of a node status.
pub open spec fn status_name(s: NodeStatus) -> Seq<char> {
    match s {
        NodeStatus::Healthy => "Healthy"@,
        NodeStatus::Suspect => "Suspect"@,
        NodeStatus::Unavailable => "Unavailable"@,
        NodeStatus::Draining => "Draining"@,
        NodeStatus::Maintenance => "Maintenance"@,
        NodeStatus::Offline => "Offline"@,
    }
}

pub open spec fn bytes_sum(s: Seq<u64>) -> int
    decreases s.len(),
{
    if s.len() == 0 {
        0
    } else {
        bytes_sum(s.drop_last()) + s.last()
    }
}

pub open spec fn vram_total(n: PhysicalNode) -> int {
    bytes_sum(n.capabilities.gpus@.map_values(|g: crate::types::GpuCapabilities| g.vram_bytes))
}

/// Milliseconds loading `bytes` of shards is estimated to take: a second
/// per 100 MiB, whole.
pub open spec fn load_estimate(bytes: int) -> int {
    ((bytes / (100 * 1048576int)) as u32) as int * 1000
}

/// The metric, its `f64` value's bits and the duration of each benchmark kind.
pub open spec fn benchmark_table(t: BenchmarkType) -> Option<(Seq<char>, u64, u32)> {
    match t {
        BenchmarkType::CpuMatrix => Some(("gflops"@, 0x4049_0000_0000_0000u64, 100u32)),
        BenchmarkType::CpuMemory => Some(("bandwidth_mbps"@, 0x40d8_6a00_0000_0000u64, 50u32)),
        BenchmarkType::GpuMatrix => Some(("tflops"@, 0x4024_0000_0000_0000u64, 200u32)),
        BenchmarkType::NetworkLatency => Some(("latency_us"@, 0x4062_c000_0000_0000u64, 10u32)),
        BenchmarkType::NetworkBandwidth => Some(("bandwidth_mbps"@, 0x40c0_9a00_0000_0000u64, 1000u32)),
        BenchmarkType::Unspecified => None,
    }
}

/// The permissions a node joins with.
pub fn default_permissions() -> (r: NodePermissions)
    ensures
        are_default_permissions(r),
{
    NodePermissions {
        max_cpu_percent: 80,
        max_cpu_threads: None,
        max_ram_bytes: 16 * GIB,
        gpu_enabled: true,
        max_vram_bytes: 8 * GIB,
        max_storage_bytes: 100 * GIB,
        allow_when_on_battery: false,
        pause_when_user_active: true,
        allowed_schedule: None,
    }
}

/// The capabilities a node is recorded with before it is probed: nothing known.
pub fn unknown_capabilities() -> (r: NodeCapabilities)
    ensures
        r.cpu.architecture@ == "unknown"@,
        r.cpu.cores == 0,
        r.cpu.threads == 0,
        r.cpu.numa_nodes == 1,
        r.gpus@.len() == 0,
        r.memory.total_bytes == 0,
        r.storage.total_bytes == 0,
        r.network.interfaces@.len() == 0,
        r.supported_runtimes@.len() == 0,
{
    NodeCapabilities {
        cpu: CpuCapabilities {
            architecture: String::from_str("unknown"),
            cores: 0,
            threads: 0,
            frequency_mhz: 0,
            features: Vec::new(),
            numa_nodes: 1,
        },
        gpus: Vec::new(),
        memory: MemoryCapabilities { total_bytes: 0, available_bytes: 0, bandwidth_mbps: 0 },
        storage: StorageCapabilities { total_bytes: 0, available_bytes: 0, read_throughput_mbps: 0, write_throughput_mbps: 0 },
        network: NetworkCapabilities { interfaces: Vec::new() },
        supported_runtimes: Vec::new(),
    }
}

/// Resources of a node that has not reported any: all zero.
pub fn idle_resources() -> (r: NodeResources)
    ensures
        r.cpu_usage_percent_bits == 0,
        r.memory_used_bytes == 0,
        r.gpu_usage@.len() == 0,
        r.temperature_celsius_bits is None,
{
    NodeResources {
        cpu_usage_percent_bits: 0,
        memory_used_bytes: 0,
        memory_committed_bytes: 0,
        gpu_usage: Vec::new(),
        network_tx_mbps_bits: 0,
        network_rx_mbps_bits: 0,
        temperature_celsius_bits: None,
    }
}

fn status_text(s: NodeStatus) -> (r: String)
    ensures
        r@ == status_name(s),
{
    match s {
        NodeStatus::Healthy => String::from_str("Healthy"),
        NodeStatus::Suspect => String::from_str("Suspect"),
        NodeStatus::Unavailable => String::from_str("Unavailable"),
        NodeStatus::Draining => String::from_str("Draining"),
        NodeStatus::Maintenance => String::from_str("Maintenance"),
        NodeStatus::Offline => String::from_str("Offline"),
    }
}

/// The result of a benchmark kind; an unsupported kind is refused.
pub fn run_benchmark(t: BenchmarkType) -> (r: Result<BenchmarkResult, String>)
    ensures
        match benchmark_table(t) {
            Some((m, v, d)) => r matches Ok(b) && b.metric@ == m && b.value_bits == v && b.duration_ms == d,
            None => r matches Err(e) && e@ == "Unsupported benchmark type"@,
        },
{
    match t {
        BenchmarkType::CpuMatrix => Ok(BenchmarkResult { metric: String::from_str("gflops"), value_bits: 0x4049_0000_0000_0000, duration_ms: 100 }),
        BenchmarkType::CpuMemory => Ok(BenchmarkResult { metric: String::from_str("bandwidth_mbps"), value_bits: 0x40d8_6a00_0000_0000, duration_ms: 50 }),
        BenchmarkType::GpuMatrix => Ok(BenchmarkResult { metric: String::from_str("tflops"), value_bits: 0x4024_0000_0000_0000, duration_ms: 200 }),
        BenchmarkType::NetworkLatency => Ok(BenchmarkResult { metric: String::from_str("latency_us"), value_bits: 0x4062_c000_0000_0000, duration_ms: 10 }),
        BenchmarkType::NetworkBandwidth => Ok(BenchmarkResult { metric: String::from_str("bandwidth_mbps"), value_bits: 0x40c0_9a00_0000_0000, duration_ms: 1000 }),
        BenchmarkType::Unspecified => Err(String::from_str("Unsupported benchmark type")),
    }
}

/// A node's benchmark request: a node id that is no UUID is refused;
/// otherwise the answer carries the benchmark's result, or says that the
/// kind is unsupported.
pub fn benchmark(node_id: &str, t: BenchmarkType) -> (r: Result<BenchmarkResponse, ControlError>)
    ensures
        uuid_parse(node_id@) is None ==> (r matches Err(ControlError::InvalidArgument(m)) && m@ == "Invalid node ID"@),
        uuid_parse(node_id@) is Some ==> (r matches Ok(resp) && match benchmark_table(t) {
            Some((m, v, d)) => resp.success && resp.error_message@.len() == 0
                && (resp.result matches Some(b) && b.metric@ == m && b.value_bits == v && b.duration_ms == d),
            None => !resp.success && resp.result is None && resp.error_message@ == "Unsupported benchmark type"@,
        }),
{
    if parse_uuid(node_id).is_none() {
        return Err(ControlError::InvalidArgument(String::from_str("Invalid node ID")));
    }
    match run_benchmark(t) {
        Ok(b) => Ok(BenchmarkResponse { success: true, result: Some(b), error_message: String::new() }),
        Err(e) => Ok(BenchmarkResponse { success: false, result: None, error_message: e }),
    }
}

/// The permissions a request sets: the CPU share cut to a byte, no thread
/// limit for 0, no schedule for an empty list.
pub fn permissions_from(req: &SetPermissionsRequest) -> (r: NodePermissions)
    ensures
        permissions_set_by(r, *req),
{
    let schedule = if req.allowed_schedule.len() == 0 {
        None
    } else {
        let mut hours: Vec<String> = Vec::new();
        let mut i: usize = 0;
        while i < req.allowed_schedule.len()
            invariant
                i <= req.allowed_schedule@.len(),
                hours@.len() == i,
                forall|k: int| 0 <= k < i ==> #[trigger] hours@[k]@ == req.allowed_schedule@[k]@,
            decreases req.allowed_schedule@.len() - i,
        {
            hours.push(req.allowed_schedule[i].clone());
            i = i + 1;
        }
        Some(Schedule { allowed_hours: hours })
    };
    NodePermissions {
        max_cpu_percent: req.max_cpu_percent as u8,
        max_cpu_threads: if req.max_cpu_threads > 0 { Some(req.max_cpu_threads) } else { None },
        max_ram_bytes: req.max_ram_bytes,
        gpu_enabled: req.gpu_enabled,
        max_vram_bytes: req.max_vram_bytes,
        max_storage_bytes: req.max_storage_bytes,
        allow_when_on_battery: req.allow_when_on_battery,
        pause_when_user_active: req.pause_when_user_active,
        allowed_schedule: schedule,
    }
}

/// The text names a UUID of a node that has paired.
pub open spec fn paired_id(p: PairingView, node_id: Seq<char>) -> bool {
    uuid_parse(node_id) matches Some(id) && p.nodes.contains_key(id)
}

/// What registering `req` gives: a refusal of a cluster id that is no
/// UUID, a refused answer for another cluster, and otherwise a new suspect
/// node named by a fresh pairing challenge, answered with the
/// coordinator's public key.
pub open spec fn register_outcome(before: ClusterState, after: ClusterState, req: RegisterRequest, r: Result<RegisterResponse, ControlError>) -> bool {
    exists|id: NodeId, challenge: Seq<u8>, now_ms: Timestamp, now_secs: i64|
        #[trigger] register_outcome_at(before, after, req, id, challenge, now_ms, now_secs, r)
        && challenge.len() == 32 && millis_ok(now_ms) && time_ok(now_secs)
}

/// What registering `req` gives when the node would be named `id`, sent
/// `challenge`, and recorded at `now_ms` (milliseconds) with its challenge
/// issued at `now_secs` (seconds): a refusal of a cluster id that is no
/// UUID, a refused answer for another cluster, and otherwise the new suspect
/// node `id`, its challenge pending, and the coordinator's public key.
pub open spec fn register_outcome_at(
    before: ClusterState,
    after: ClusterState,
    req: RegisterRequest,
    id: NodeId,
    challenge: Seq<u8>,
    now_ms: Timestamp,
    now_secs: i64,
    r: Result<RegisterResponse, ControlError>,
) -> bool {
    &&& (uuid_parse(req.cluster_id@) is None ==> (r matches Err(ControlError::InvalidArgument(m)) && m@ == "Invalid cluster ID"@) && after@ == before@
                && after.pairing_view() == before.pairing_view())
    &&& (uuid_parse(req.cluster_id@) matches Some(c) ==> c != before.id() ==> (r matches Ok(resp) && !resp.success
                && resp.node_id@.len() == 0 && resp.device_certificate@.len() == 0 && resp.error_message@ == "Cluster ID mismatch"@)
                && after@ == before@ && after.pairing_view() == before.pairing_view())
    &&& (uuid_parse(req.cluster_id@) == Some(before.id()) ==> (r matches Ok(resp) && resp.success && resp.error_message@.len() == 0
                && resp.device_certificate@ == before.pairing_view().public_key
                && uuid_text(id) == resp.node_id@ && after@ == before@.insert(id, NodeView {
                    name: req.node_name@,
                    hostname: req.hostname@,
                    status: NodeStatus::Suspect,
                    last_heartbeat: now_ms,
                    fingerprint: Some(hex_lower(req.pairing_signature@.take(8))),
                    cluster_id: before.id(),
                    resources: after@[id].resources,
                    capabilities: after@[id].capabilities,
                    permissions: after@[id].permissions,
                }) && joined_as_new(after@[id])
                && after.pairing_view().public_key == before.pairing_view().public_key
                && after.pairing_view().nodes == before.pairing_view().nodes
                && after.pairing_view().pending == before.pairing_view().pending.insert(challenge_key(id, challenge), PendingView {
                    node_id: id,
                    challenge,
                    timestamp: now_secs,
                    expires_in_seconds: CHALLENGE_LIFETIME_SECS,
                })))
}

/// What registering a node through the HTTP API at `now` gives: a node id
/// that is no UUID, or of a node that has not paired, is refused and
/// nothing changes; a paired node joins healthy under its id with what it
/// reports, the default permissions and `now` as its last heartbeat.
pub open spec fn register_node_outcome(
    before: ClusterState,
    after: ClusterState,
    node_id: Seq<char>,
    node_name: Seq<char>,
    hostname: Seq<char>,
    cluster_id: Seq<char>,
    capabilities: NodeCapabilities,
    resources: NodeResources,
    now: Timestamp,
    r: RegisterNodeResponse,
) -> bool {
    &&& after.pairing_view() == before.pairing_view()
    &&& !paired_id(before.pairing_view(), node_id) ==> !r.success && r.node_id@.len() == 0
        && (r.error_message matches Some(m) && m@ == "Node not paired"@) && after@ == before@
    &&& paired_id(before.pairing_view(), node_id) ==> r.success && r.error_message is None
        && (uuid_parse(node_id) matches Some(id) && uuid_text(id) == r.node_id@ && after@ == before@.insert(id, NodeView {
            name: node_name,
            hostname,
            status: NodeStatus::Healthy,
            last_heartbeat: now,
            fingerprint: None,
            cluster_id: match uuid_parse(cluster_id) {
                Some(c) => c,
                None => before.id(),
            },
            resources,
            capabilities,
            permissions: after@[id].permissions,
        }) && are_default_permissions(after@[id].permissions))
}

/// A GPU as a probe answer describes it: its vendor and precisions by name.
#[derive(Debug, Clone)]
pub struct ProbeGpu {
    pub id: String,
    pub name: String,
    pub vendor: String,
    pub vram_bytes: u64,
    pub compute_capability: Option<String>,
    pub supports_peer_to_peer: bool,
    pub supports_nvml: bool,
    pub supported_precisions: Vec<String>,
}

/// A node's capabilities as a probe answer describes them: the runtimes by name.
#[derive(Debug, Clone)]
pub struct ProbeCapabilities {
    pub cpu: CpuCapabilities,
    pub gpus: Vec<ProbeGpu>,
    pub memory: MemoryCapabilities,
    pub storage: StorageCapabilities,
    pub supported_runtimes: Vec<String>,
}

/// The answer to a probe: the node's capabilities and its network interfaces.
#[derive(Debug, Clone)]
pub struct ProbeResponse {
    pub capabilities: Option<ProbeCapabilities>,
    pub interfaces: Vec<NetworkInterface>,
}

/// The name of a GPU vendor.
pub open spec fn vendor_name(v: GpuVendor) -> Seq<char> {
    match v {
        GpuVendor::Nvidia => "Nvidia"@,
        GpuVendor::Amd => "Amd"@,
        GpuVendor::Intel => "Intel"@,
        GpuVendor::Apple => "Apple"@,
        GpuVendor::Unknown => "Unknown"@,
    }
}

/// The name of a precision format.
pub open spec fn precision_name(p: Precision) -> Seq<char> {
    match p {
        Precision::Fp32 => "Fp32"@,
        Precision::Fp16 => "Fp16"@,
        Precision::Bf16 => "Bf16"@,
        Precision::Int8 => "Int8"@,
        Precision::Int4 => "Int4"@,
        Precision::Fp8 => "Fp8"@,
    }
}

/// The name of a runtime backend.
pub open spec fn runtime_name(b: RuntimeBackend) -> Seq<char> {
    match b {
        RuntimeBackend::GGML => "GGML"@,
        RuntimeBackend::CUDA => "CUDA"@,
        RuntimeBackend::ROCm => "ROCm"@,
        RuntimeBackend::MLX => "MLX"@,
        RuntimeBackend::Vulkan => "Vulkan"@,
        RuntimeBackend::CPU => "CPU"@,
    }
}

pub open spec fn option_text(o: Option<String>) -> Option<Seq<char>> {
    match o {
        Some(s) => Some(s@),
        None => None,
    }
}

/// `p` describes the GPU `g`.
pub open spec fn describes_gpu(p: ProbeGpu, g: GpuCapabilities) -> bool {
    &&& p.id@ == g.id@
    &&& p.name@ == g.name@
    &&& p.vendor@ == vendor_name(g.vendor)
    &&& p.vram_bytes == g.vram_bytes
    &&& option_text(p.compute_capability) == option_text(g.compute_capability)
    &&& p.supports_peer_to_peer == g.supports_peer_to_peer
    &&& p.supports_nvml == g.supports_nvml
    &&& p.supported_precisions@.len() == g.supported_precisions@.len()
    &&& forall|i: int| 0 <= i < p.supported_precisions@.len()
        ==> #[trigger] p.supported_precisions@[i]@ == precision_name(g.supported_precisions@[i])
}

fn vendor_text(v: GpuVendor) -> (r: String)
    ensures
        r@ == vendor_name(v),
{
    match v {
        GpuVendor::Nvidia => String::from_str("Nvidia"),
        GpuVendor::Amd => String::from_str("Amd"),
        GpuVendor::Intel => String::from_str("Intel"),
        GpuVendor::Apple => String::from_str("Apple"),
        GpuVendor::Unknown => String::from_str("Unknown"),
    }
}

fn precision_text(p: Precision) -> (r: String)
    ensures
        r@ == precision_name(p),
{
    match p {
        Precision::Fp32 => String::from_str("Fp32"),
        Precision::Fp16 => String::from_str("Fp16"),
        Precision::Bf16 => String::from_str("Bf16"),
        Precision::Int8 => String::from_str("Int8"),
        Precision::Int4 => String::from_str("Int4"),
        Precision::Fp8 => String::from_str("Fp8"),
    }
}

fn runtime_text(b: RuntimeBackend) -> (r: String)
    ensures
        r@ == runtime_name(b),
{
    match b {
        RuntimeBackend::GGML => String::from_str("GGML"),
        RuntimeBackend::CUDA => String::from_str("CUDA"),
        RuntimeBackend::ROCm => String::from_str("ROCm"),
        RuntimeBackend::MLX => String::from_str("MLX"),
        RuntimeBackend::Vulkan => String::from_str("Vulkan"),
        RuntimeBackend::CPU => String::from_str("CPU"),
    }
}

fn probe_gpu(g: &GpuCapabilities) -> (r: ProbeGpu)
    ensures
        describes_gpu(r, *g),
{
    let mut precisions: Vec<String> = Vec::new();
    let mut i: usize = 0;
    while i < g.supported_precisions.len()
        invariant
            i <= g.supported_precisions@.len(),
            precisions@.len() == i,
            forall|k: int| 0 <= k < i ==> #[trigger] precisions@[k]@ == precision_name(g.supported_precisions@[k]),
        decreases g.supported_precisions@.len() - i,
    {
        precisions.push(precision_text(g.supported_precisions[i]));
        i = i + 1;
    }
    let compute_capability = match &g.compute_capability {
        Some(c) => Some(c.clone()),
        None => None,
    };
    ProbeGpu {
        id: g.id.clone(),
        name: g.name.clone(),
        vendor: vendor_text(g.vendor),
        vram_bytes: g.vram_bytes,
        compute_capability,
        supports_peer_to_peer: g.supports_peer_to_peer,
        supports_nvml: g.supports_nvml,
        supported_precisions: precisions,
    }
}

/// The answer to a probe of a node with these capabilities: its CPU,
/// memory and storage as they are, each GPU with its vendor and precisions
/// by name, the runtimes by name, and one entry per network interface.
pub fn probe_response(capabilities: NodeCapabilities) -> (r: ProbeResponse)
    ensures
        r.interfaces@ == capabilities.network.interfaces@,
        r.capabilities matches Some(c) && {
            &&& c.cpu == capabilities.cpu
            &&& c.memory == capabilities.memory
            &&& c.storage == capabilities.storage
            &&& c.gpus@.len() == capabilities.gpus@.len()
            &&& (forall|i: int| 0 <= i < c.gpus@.len() ==> #[trigger] describes_gpu(c.gpus@[i], capabilities.gpus@[i]))
            &&& c.supported_runtimes@.len() == capabilities.supported_runtimes@.len()
            &&& (forall|i: int| 0 <= i < c.supported_runtimes@.len()
                ==> #[trigger] c.supported_runtimes@[i]@ == runtime_name(capabilities.supported_runtimes@[i]))
        },
{
    let mut gpus: Vec<ProbeGpu> = Vec::new();
    let mut i: usize = 0;
    while i < capabilities.gpus.len()
        invariant
            i <= capabilities.gpus@.len(),
            gpus@.len() == i,
            forall|k: int| 0 <= k < i ==> #[trigger] describes_gpu(gpus@[k], capabilities.gpus@[k]),
        decreases capabilities.gpus@.len() - i,
    {
        gpus.push(probe_gpu(&capabilities.gpus[i]));
        i = i + 1;
    }
    let mut runtimes: Vec<String> = Vec::new();
    let mut j: usize = 0;
    while j < capabilities.supported_runtimes.len()
        invariant
            j <= capabilities.supported_runtimes@.len(),
            runtimes@.len() == j,
            forall|k: int| 0 <= k < j ==> #[trigger] runtimes@[k]@ == runtime_name(capabilities.supported_runtimes@[k]),
        decreases capabilities.supported_runtimes@.len() - j,
    {
        runtimes.push(runtime_text(capabilities.supported_runtimes[j]));
        j = j + 1;
    }
    let NodeCapabilities { cpu, gpus: _, memory, storage, network, supported_runtimes: _ } = capabilities;
    ProbeResponse {
        capabilities: Some(ProbeCapabilities { cpu, gpus, memory, storage, supported_runtimes: runtimes }),
        interfaces: network.interfaces,
    }
}

/// A clock reading in milliseconds, as chrono gives it.
pub open spec fn millis_ok(t: Timestamp) -> bool {
    -10_000_000_000_000_000 < t < 10_000_000_000_000_000
}

/// What a heartbeat from `node_id` received at `now` does: a malformed id is
/// refused; otherwise it is acknowledged, and a registered node is healthy
/// again with the reported resources and `now` as its last heartbeat.
pub open spec fn heartbeat_outcome(
    before: Map<NodeId, NodeView>,
    after: Map<NodeId, NodeView>,
    node_id: Seq<char>,
    resources: NodeResources,
    sequence: u64,
    now: Timestamp,
    r: Result<HeartbeatResponse, ControlError>,
) -> bool {
    match uuid_parse(node_id) {
        None => (r matches Err(ControlError::InvalidArgument(m)) && m@ == "Invalid node ID"@) && after == before,
        Some(id) => (r matches Ok(resp) && resp.acknowledged && resp.expected_sequence == sequence + 1)
            && if before.contains_key(id) {
                after == before.insert(id, NodeView {
                    status: NodeStatus::Healthy,
                    last_heartbeat: now,
                    resources,
                    ..before[id]
                })
            } else {
                after == before
            },
    }
}

/// What a heartbeat through the HTTP API received at `now` does: a
/// malformed or unknown id is answered with a failure and changes nothing;
/// a registered node is healthy again with the reported resources and
/// `now` as its last heartbeat.
pub open spec fn api_heartbeat_outcome(
    before: Map<NodeId, NodeView>,
    after: Map<NodeId, NodeView>,
    node_id: Seq<char>,
    resources: NodeResources,
    now: Timestamp,
    r: ApiHeartbeatResponse,
) -> bool {
    match uuid_parse(node_id) {
        None => !r.success && (r.error_message matches Some(m) && m@ == "Invalid node ID"@) && after == before,
        Some(id) => if before.contains_key(id) {
            r.success && r.error_message is None && after == before.insert(id, NodeView {
                status: NodeStatus::Healthy,
                last_heartbeat: now,
                resources,
                ..before[id]
            })
        } else {
            !r.success && (r.error_message matches Some(m) && m@ == "Node not found"@) && after == before
        },
    }
}

/// The coordinator's cluster state.
pub struct ClusterState {
    cluster_id: ClusterId,
    nodes: Vec<PhysicalNode>,
    pairing: PairingManager,
}

impl View for ClusterState {
    type V = Map<NodeId, NodeView>;

    closed spec fn view(&self) -> Map<NodeId, NodeView> {
        seq_to_map(node_pairs(self.nodes@))
    }
}

impl ClusterState {
    /// One entry per node id, and a well-formed pairing manager.
    pub closed spec fn wf(&self) -> bool {
        &&& keys_unique(node_pairs(self.nodes@))
        &&& self.pairing.wf()
    }

    /// The cluster's id.
    pub closed spec fn id(&self) -> ClusterId {
        self.cluster_id
    }

    /// What the coordinator's pairing manager holds: its public key, the
    /// challenges pending and the paired nodes.
    pub closed spec fn pairing_view(&self) -> PairingView {
        self.pairing@
    }

    /// The cluster's id.
    pub fn cluster_id(&self) -> (r: ClusterId)
        ensures
            r == self.id(),
    {
        self.cluster_id
    }

    /// The registered nodes, in the order they are kept.
    pub closed spec fn node_list(&self) -> Seq<PhysicalNode> {
        self.nodes@
    }

    /// The node with this id, when registered.
    pub closed spec fn node(&self, id: NodeId) -> Option<PhysicalNode> {
        if exists|i: int| 0 <= i < self.nodes@.len() && self.nodes@[i].id == id {
            Some(self.nodes@[choose|i: int| 0 <= i < self.nodes@.len() && self.nodes@[i].id == id])
        } else {
            None
        }
    }

    /// A cluster with a fresh random id, no nodes, and a coordinator pairing key.
    pub fn new() -> (r: Self)
        ensures
            r.wf(),
            r@ == Map::<NodeId, NodeView>::empty(),
    {
        let cluster_id = crate::types::new_uuid();
        let pairing = PairingManager::with_key(cluster_id);
        let r = ClusterState { cluster_id, nodes: Vec::new(), pairing };
        assert(node_pairs(r.nodes@) =~= Seq::empty());
        r
    }

    /// The registered nodes.
    pub fn nodes(&self) -> (r: &Vec<PhysicalNode>)
        ensures
            r@ == self.node_list(),
            seq_to_map(node_pairs(r@)) == self@,
    {
        &self.nodes
    }

    fn find(&self, id: NodeId) -> (r: Option<usize>)
        ensures
            match r {
                Some(i) => i < self.nodes@.len() && self.nodes@[i as int].id == id,
                None => forall|i: int| 0 <= i < self.nodes@.len() ==> self.nodes@[i].id != id,
            },
    {
        let mut i: usize = 0;
        while i < self.nodes.len()
            invariant
                i <= self.nodes@.len(),
                forall|j: int| 0 <= j < i ==> self.nodes@[j].id != id,
            decreases self.nodes@.len() - i,
        {
            if self.nodes[i].id == id {
                return Some(i);
            }
            i = i + 1;
        }
        None
    }

    /// Stores a node, replacing one with the same id.
    fn store(&mut self, n: PhysicalNode)
        requires
            old(self).wf(),
        ensures
            final(self).wf(),
            final(self).id() == old(self).id(),
            final(self)@ == old(self)@.insert(n.id, node_view(n)),
            final(self).pairing_view() == old(self).pairing_view(),
    {
        let ghost ps = node_pairs(self.nodes@);
        let ghost nv = node_view(n);
        let id = n.id;
        match self.find(id) {
            Some(i) => {
                proof {
                    lemma_map_update(ps, i as int, nv);
                }
                self.nodes.set(i, n);
                assert(node_pairs(self.nodes@) =~= ps.update(i as int, (ps[i as int].0, nv)));
            },
            None => {
                proof {
                    lemma_unique_push(ps, id, nv);
                    lemma_map_push(ps, id, nv);
                }
                self.nodes.push(n);
                assert(node_pairs(self.nodes@) =~= ps.push((id, nv)));
            },
        }
    }

    /// Registers a node of this cluster: a pairing challenge names it, and
    /// it is recorded as suspect, with unknown capabilities, default
    /// permissions and the hex of its signature's first 8 bytes as
    /// fingerprint. A request for another cluster is answered with a refusal.
    pub fn register(&mut self, req: &RegisterRequest) -> (r: Result<RegisterResponse, ControlError>)
        requires
            old(self).wf(),
            uuid_parse(req.cluster_id@) == Some(old(self).id()) ==> req.pairing_signature@.len() >= 8,
        ensures
            final(self).wf(),
            final(self).id() == old(self).id(),
            register_outcome(*old(self), *final(self), *req, r),
    {
        let node_id = crate::types::new_uuid();
        let challenge = random_challenge();
        let ghost ch = challenge@;
        let now_ms = now_millis();
        let now_secs = now_secs();
        let r = self.register_at(req, node_id, challenge, now_ms, now_secs);
        assert(register_outcome_at(*old(self), *self, *req, node_id, ch, now_ms, now_secs, r));
        r
    }

    /// Registers a node of this cluster under `node_id`, sending it
    /// `challenge` issued at `now_secs` and recording it at `now_ms`: see
    /// `register_outcome_at`.
    pub fn register_at(&mut self, req: &RegisterRequest, node_id: NodeId, challenge: Vec<u8>, now_ms: Timestamp, now_secs: i64) -> (r: Result<RegisterResponse, ControlError>)
        requires
            old(self).wf(),
            uuid_parse(req.cluster_id@) == Some(old(self).id()) ==> req.pairing_signature@.len() >= 8,
            challenge@.len() >= 8,
            time_ok(now_secs),
        ensures
            final(self).wf(),
            final(self).id() == old(self).id(),
            register_outcome_at(*old(self), *final(self), *req, node_id, challenge@, now_ms, now_secs, r),
    {
        let cluster_id = match parse_uuid(req.cluster_id.as_str()) {
            Some(c) => c,
            None => return Err(ControlError::InvalidArgument(String::from_str("Invalid cluster ID"))),
        };
        if cluster_id != self.cluster_id {
            return Ok(RegisterResponse {
                success: false,
                node_id: String::new(),
                device_certificate: Vec::new(),
                error_message: String::from_str("Cluster ID mismatch"),
            });
        }
        let mut head: Vec<u8> = Vec::new();
        let mut i: usize = 0;
        while i < 8
            invariant
                i <= 8,
                req.pairing_signature@.len() >= 8,
                head@ == req.pairing_signature@.take(i as int),
            decreases 8 - i,
        {
            head.push(req.pairing_signature[i]);
            assert(req.pairing_signature@.take(i + 1) =~= req.pairing_signature@.take(i as int).push(req.pairing_signature@[i as int]));
            i = i + 1;
        }
        let fingerprint = hex_encode(head.as_slice());
        let challenge = self.pairing.generate_challenge_at(node_id, challenge, now_secs);
        let node = PhysicalNode {
            id: node_id,
            name: req.node_name.clone(),
            hostname: req.hostname.clone(),
            cluster_id,
            capabilities: unknown_capabilities(),
            resources: idle_resources(),
            permissions: default_permissions(),
            status: NodeStatus::Suspect,
            last_heartbeat: now_ms,
            certificate_fingerprint: Some(fingerprint),
        };
        let ghost nv = node_view(node);
        assert(nv == (NodeView {
            name: req.node_name@,
            hostname: req.hostname@,
            status: NodeStatus::Suspect,
            last_heartbeat: nv.last_heartbeat,
            fingerprint: Some(hex_lower(req.pairing_signature@.take(8))),
            cluster_id: self.cluster_id,
            resources: nv.resources,
            capabilities: nv.capabilities,
            permissions: nv.permissions,
        }));
        assert(joined_as_new(nv));
        self.store(node);
        let id_text = uuid_string(node_id);
        proof {
            assert(uuid_text(node_id) == id_text@);
            assert(self@[node_id] == nv);
            let ch = challenge.challenge@;
            assert(self.pairing_view().pending == old(self).pairing_view().pending.insert(challenge_key(node_id, ch), PendingView {
                node_id,
                challenge: ch,
                timestamp: now_secs,
                expires_in_seconds: CHALLENGE_LIFETIME_SECS,
            }));
            assert(self@ == old(self)@.insert(node_id, NodeView {
                name: req.node_name@,
                hostname: req.hostname@,
                status: NodeStatus::Suspect,
                last_heartbeat: now_ms,
                fingerprint: Some(hex_lower(req.pairing_signature@.take(8))),
                cluster_id: old(self).id(),
                resources: self@[node_id].resources,
                capabilities: self@[node_id].capabilities,
                permissions: self@[node_id].permissions,
            }));
        }
        let resp = RegisterResponse {
            success: true,
            node_id: id_text,
            device_certificate: challenge.coordinator_public_key,
            error_message: String::new(),
        };
        Ok(resp)
    }

    /// Registers a node as `register` does, unless the request is for this
    /// cluster with a signature shorter than the 8 bytes its fingerprint is
    /// taken from: then nothing changes and the answer is `None`.
    pub fn try_register(&mut self, req: &RegisterRequest) -> (r: Option<Result<RegisterResponse, ControlError>>)
        requires
            old(self).wf(),
        ensures
            final(self).wf(),
            final(self).id() == old(self).id(),
            uuid_parse(req.cluster_id@) == Some(old(self).id()) && req.pairing_signature@.len() < 8 ==> r is None
                && final(self)@ == old(self)@ && final(self).pairing_view() == old(self).pairing_view(),
            !(uuid_parse(req.cluster_id@) == Some(old(self).id()) && req.pairing_signature@.len() < 8) ==>
                (r matches Some(x) && register_outcome(*old(self), *final(self), *req, x)),
    {
        if req.pairing_signature.len() < 8 {
            match parse_uuid(req.cluster_id.as_str()) {
                Some(c) => {
                    if c == self.cluster_id {
                        return None;
                    }
                },
                None => {},
            }
        }
        Some(self.register(req))
    }

    /// Issues a pairing challenge to a node that wants to join: a fresh node
    /// id and 32 random bytes to sign, kept pending for 300 seconds, with
    /// the coordinator's public key. The registered nodes are unchanged.
    pub fn begin_pairing(&mut self, request: &PairingRequest) -> (r: PairingChallenge)
        requires
            old(self).wf(),
        ensures
            final(self).wf(),
            final(self).id() == old(self).id(),
            final(self)@ == old(self)@,
            final(self).pairing_view().public_key == old(self).pairing_view().public_key,
            final(self).pairing_view().nodes == old(self).pairing_view().nodes,
            r.challenge@.len() == 32,
            r.coordinator_public_key@ == old(self).pairing_view().public_key,
            time_ok(final(self).pairing_view().pending[challenge_key(r.node_id, r.challenge@)].timestamp),
            final(self).pairing_view().pending == old(self).pairing_view().pending.insert(
                challenge_key(r.node_id, r.challenge@),
                PendingView {
                    node_id: r.node_id,
                    challenge: r.challenge@,
                    timestamp: final(self).pairing_view().pending[challenge_key(r.node_id, r.challenge@)].timestamp,
                    expires_in_seconds: CHALLENGE_LIFETIME_SECS,
                },
            ),
    {
        let node_id = crate::types::new_uuid();
        let challenge = random_challenge();
        let now = now_secs();
        self.begin_pairing_at(node_id, challenge, now)
    }

    /// Issues `challenge` to the node that will be named `node_id`, at `now`
    /// (seconds): it stays pending for 300 seconds from `now`; the
    /// registered nodes are unchanged.
    pub fn begin_pairing_at(&mut self, node_id: NodeId, challenge: Vec<u8>, now: i64) -> (r: PairingChallenge)
        requires
            old(self).wf(),
            challenge@.len() >= 8,
            time_ok(now),
        ensures
            final(self).wf(),
            final(self).id() == old(self).id(),
            final(self)@ == old(self)@,
            final(self).pairing_view().public_key == old(self).pairing_view().public_key,
            final(self).pairing_view().nodes == old(self).pairing_view().nodes,
            r.node_id == node_id,
            r.challenge@ == challenge@,
            r.coordinator_public_key@ == old(self).pairing_view().public_key,
            final(self).pairing_view().pending == old(self).pairing_view().pending.insert(
                challenge_key(node_id, challenge@),
                PendingView { node_id, challenge: challenge@, timestamp: now, expires_in_seconds: CHALLENGE_LIFETIME_SECS },
            ),
    {
        let ghost old_nodes = self@;
        let c = self.pairing.generate_challenge_at(node_id, challenge, now);
        assert(self@ == old_nodes);
        c
    }

    /// Checks a node's signed answer to its pairing challenge (see
    /// `PairingManager::verify_response_at`); a node that passes is paired
    /// and may register. The registered nodes are unchanged.
    pub fn complete_pairing(&mut self, response: &PairingResponse, node_public_key: &[u8]) -> (r: Result<DeviceCertificate, PairingError>)
        requires
            old(self).wf(),
            response.challenge_response@.len() >= 8,
        ensures
            final(self).wf(),
            final(self).id() == old(self).id(),
            final(self)@ == old(self)@,
            exists|checked_at: i64, issued_at: i64| time_ok(checked_at) && time_ok(issued_at) && verify_outcome(
                old(self).pairing_view(),
                final(self).pairing_view(),
                *response,
                node_public_key@,
                checked_at,
                issued_at,
                r,
            ),
    {
        let ghost old_nodes = self@;
        let ghost before = self.pairing@;
        let r = self.pairing.verify_response(response, node_public_key);
        assert(self@ == old_nodes);
        proof {
            let (c, i) = choose|c: i64, i: i64| time_ok(c) && time_ok(i) && verify_outcome(before, self.pairing@, *response, node_public_key@, c, i, r);
            assert(verify_outcome(old(self).pairing_view(), self.pairing_view(), *response, node_public_key@, c, i, r));
        }
        r
    }

    /// Registers a paired node through the HTTP API now; see `register_node_at`.
    pub fn register_node(
        &mut self,
        node_id: &str,
        node_name: String,
        hostname: String,
        cluster_id: &str,
        capabilities: NodeCapabilities,
        resources: NodeResources,
    ) -> (r: RegisterNodeResponse)
        requires
            old(self).wf(),
        ensures
            final(self).wf(),
            final(self).id() == old(self).id(),
            exists|now: Timestamp| millis_ok(now) && register_node_outcome(
                *old(self), *final(self), node_id@, node_name@, hostname@, cluster_id@, capabilities, resources, now, r),
    {
        let now = now_millis();
        let ghost (n, h) = (node_name@, hostname@);
        let ghost (c, x) = (capabilities, resources);
        let r = self.register_node_at(node_id, node_name, hostname, cluster_id, capabilities, resources, now);
        assert(millis_ok(now) && register_node_outcome(*old(self), *self, node_id@, n, h, cluster_id@, c, x, now, r));
        r
    }

    /// Registers a paired node through the HTTP API at `now`, under the id
    /// its pairing gave it: it joins healthy with what it reports, the
    /// default permissions and `now` as its last heartbeat; a cluster id
    /// that is no UUID is taken as this cluster's. A node id that is no
    /// UUID, or of a node that has not paired, is refused and nothing changes.
    pub fn register_node_at(
        &mut self,
        node_id: &str,
        node_name: String,
        hostname: String,
        cluster_id: &str,
        capabilities: NodeCapabilities,
        resources: NodeResources,
        now: Timestamp,
    ) -> (r: RegisterNodeResponse)
        requires
            old(self).wf(),
        ensures
            final(self).wf(),
            final(self).id() == old(self).id(),
            register_node_outcome(*old(self), *final(self), node_id@, node_name@, hostname@, cluster_id@, capabilities, resources, now, r),
    {
        let node_id = match parse_uuid(node_id) {
            Some(id) => id,
            None => return RegisterNodeResponse { success: false, node_id: String::new(), error_message: Some(String::from_str("Node not paired")) },
        };
        if !self.pairing.is_paired(node_id) {
            return RegisterNodeResponse { success: false, node_id: String::new(), error_message: Some(String::from_str("Node not paired")) };
        }
        let cluster = match parse_uuid(cluster_id) {
            Some(c) => c,
            None => self.cluster_id,
        };
        let node = PhysicalNode {
            id: node_id,
            name: node_name,
            hostname,
            cluster_id: cluster,
            capabilities,
            resources,
            permissions: default_permissions(),
            status: NodeStatus::Healthy,
            last_heartbeat: now,
            certificate_fingerprint: None,
        };
        let ghost nv = node_view(node);
        self.store(node);
        let id_text = uuid_string(node_id);
        proof {
            assert(self@[node_id] == nv);
        }
        RegisterNodeResponse { success: true, node_id: id_text, error_message: None }
    }

    /// A heartbeat through the HTTP API, taken now; see `send_heartbeat_at`.
    pub fn send_heartbeat(&mut self, node_id: &str, resources: NodeResources) -> (r: ApiHeartbeatResponse)
        requires
            old(self).wf(),
        ensures
            final(self).wf(),
            final(self).id() == old(self).id(),
            exists|now: Timestamp| millis_ok(now) && api_heartbeat_outcome(old(self)@, final(self)@, node_id@, resources, now, r),
    {
        let now = now_millis();
        let r = self.send_heartbeat_at(node_id, resources, now);
        assert(millis_ok(now) && api_heartbeat_outcome(old(self)@, self@, node_id@, resources, now, r));
        r
    }

    /// A heartbeat through the HTTP API received at `now`: a registered node
    /// is healthy again, with the resources it reports and `now` as its last
    /// heartbeat; an unknown or malformed id is answered with a failure.
    pub fn send_heartbeat_at(&mut self, node_id: &str, resources: NodeResources, now: Timestamp) -> (r: ApiHeartbeatResponse)
        requires
            old(self).wf(),
        ensures
            final(self).wf(),
            final(self).id() == old(self).id(),
            api_heartbeat_outcome(old(self)@, final(self)@, node_id@, resources, now, r),
    {
        let id = match parse_uuid(node_id) {
            Some(i) => i,
            None => return ApiHeartbeatResponse { success: false, error_message: Some(String::from_str("Invalid node ID")) },
        };
        let ghost ps = node_pairs(self.nodes@);
        match self.find(id) {
            Some(i) => {
                proof {
                    lemma_map_lookup(ps, i as int);
                }
                self.update_node(id, Some(resources), None, Some(NodeStatus::Healthy), Some(now));
                ApiHeartbeatResponse { success: true, error_message: None }
            },
            None => {
                proof {
                    lemma_map_absent(ps, id);
                }
                ApiHeartbeatResponse { success: false, error_message: Some(String::from_str("Node not found")) }
            },
        }
    }

    /// Records a node's heartbeat now; see `heartbeat_at`.
    pub fn heartbeat(&mut self, node_id: &str, resources: NodeResources, sequence: u64) -> (r: Result<HeartbeatResponse, ControlError>)
        requires
            old(self).wf(),
            sequence < u64::MAX,
        ensures
            final(self).wf(),
            final(self).id() == old(self).id(),
            exists|now: Timestamp| millis_ok(now) && heartbeat_outcome(old(self)@, final(self)@, node_id@, resources, sequence, now, r),
    {
        let now = now_millis();
        let r = self.heartbeat_at(node_id, resources, sequence, now);
        assert(millis_ok(now) && heartbeat_outcome(old(self)@, self@, node_id@, resources, sequence, now, r));
        r
    }

    /// Records a node's heartbeat received at `now`: its resources, `now` as
    /// its last heartbeat, and that it is healthy; an unknown node is only
    /// acknowledged.
    pub fn heartbeat_at(&mut self, node_id: &str, resources: NodeResources, sequence: u64, now: Timestamp) -> (r: Result<HeartbeatResponse, ControlError>)
        requires
            old(self).wf(),
            sequence < u64::MAX,
        ensures
            final(self).wf(),
            final(self).id() == old(self).id(),
            heartbeat_outcome(old(self)@, final(self)@, node_id@, resources, sequence, now, r),
    {
        let id = match parse_uuid(node_id) {
            Some(i) => i,
            None => return Err(ControlError::InvalidArgument(String::from_str("Invalid node ID"))),
        };
        self.update_node(id, Some(resources), None, Some(NodeStatus::Healthy), Some(now));
        Ok(HeartbeatResponse { acknowledged: true, expected_sequence: sequence + 1 })
    }

    /// Updates the node `id` when registered: its resources and capabilities
    /// when given, its status when given, and the heartbeat time when given.
    fn update_node(
        &mut self,
        id: NodeId,
        resources: Option<NodeResources>,
        capabilities: Option<NodeCapabilities>,
        status: Option<NodeStatus>,
        touch: Option<Timestamp>,
    )
        requires
            old(self).wf(),
        ensures
            final(self).wf(),
            final(self).id() == old(self).id(),
            old(self)@.contains_key(id) ==> final(self)@.contains_key(id) && final(self)@ == old(self)@.insert(id, NodeView {
                status: match status { Some(s) => s, None => old(self)@[id].status },
                last_heartbeat: match touch { Some(t) => t, None => old(self)@[id].last_heartbeat },
                resources: match resources { Some(x) => x, None => old(self)@[id].resources },
                capabilities: match capabilities { Some(x) => x, None => old(self)@[id].capabilities },
                ..old(self)@[id]
            }),
            !old(self)@.contains_key(id) ==> final(self)@ == old(self)@,
    {
        let ghost ps = node_pairs(self.nodes@);
        match self.find(id) {
            Some(i) => {
                proof {
                    lemma_map_lookup(ps, i as int);
                }
                let ghost old_nodes = self.nodes@;
                let mut n = self.nodes.remove(i);
                if let Some(res) = resources {
                    n.resources = res;
                }
                if let Some(caps) = capabilities {
                    n.capabilities = caps;
                }
                if let Some(s) = status {
                    n.status = s;
                }
                if let Some(t) = touch {
                    n.last_heartbeat = t;
                }
                let ghost nv = node_view(n);
                proof {
                    lemma_map_update(ps, i as int, nv);
                }
                self.nodes.insert(i, n);
                assert(self.nodes@ =~= old_nodes.update(i as int, n));
                assert(node_pairs(self.nodes@) =~= ps.update(i as int, (ps[i as int].0, nv)));
            },
            None => {
                proof {
                    lemma_map_absent(ps, id);
                }
            },
        }
    }

    /// Records a node's probed capabilities and that it is healthy.
    pub fn apply_probe(&mut self, node_id: &str, capabilities: NodeCapabilities) -> (r: Result<(), ControlError>)
        requires
            old(self).wf(),
        ensures
            final(self).wf(),
            final(self).id() == old(self).id(),
            uuid_parse(node_id@) is None ==> (r matches Err(ControlError::InvalidArgument(m)) && m@ == "Invalid node ID"@) && final(self)@ == old(self)@,
            uuid_parse(node_id@) matches Some(id) ==> r is Ok
                && (old(self)@.contains_key(id) ==> final(self)@ == old(self)@.insert(id, NodeView { status: NodeStatus::Healthy, capabilities, ..old(self)@[id] }))
                && (!old(self)@.contains_key(id) ==> final(self)@ == old(self)@),
    {
        let id = match parse_uuid(node_id) {
            Some(i) => i,
            None => return Err(ControlError::InvalidArgument(String::from_str("Invalid node ID"))),
        };
        self.update_node(id, None, Some(capabilities), Some(NodeStatus::Healthy), None);
        Ok(())
    }

    /// Starts draining a node; the drain is estimated at 5 seconds in an
    /// emergency, 30 otherwise.
    pub fn drain(&mut self, node_id: &str, emergency: bool) -> (r: Result<DrainResponse, ControlError>)
        requires
            old(self).wf(),
        ensures
            final(self).wf(),
            final(self).id() == old(self).id(),
            uuid_parse(node_id@) is None ==> (r matches Err(ControlError::InvalidArgument(m)) && m@ == "Invalid node ID"@) && final(self)@ == old(self)@,
            uuid_parse(node_id@) matches Some(id) ==> (r matches Ok(d) && d.draining && d.estimated_seconds == (if emergency { 5u32 } else { 30u32 }))
                && (old(self)@.contains_key(id) ==> final(self)@ == old(self)@.insert(id, NodeView { status: NodeStatus::Draining, ..old(self)@[id] }))
                && (!old(self)@.contains_key(id) ==> final(self)@ == old(self)@),
    {
        let id = match parse_uuid(node_id) {
            Some(i) => i,
            None => return Err(ControlError::InvalidArgument(String::from_str("Invalid node ID"))),
        };
        self.update_node(id, None, None, Some(NodeStatus::Draining), None);
        Ok(DrainResponse { draining: true, estimated_seconds: if emergency { 5 } else { 30 } })
    }

    /// Sets a node's permissions from a request.
    pub fn set_permissions(&mut self, node_id: &str, req: &SetPermissionsRequest) -> (r: Result<bool, ControlError>)
        requires
            old(self).wf(),
        ensures
            final(self).wf(),
            final(self).id() == old(self).id(),
            uuid_parse(node_id@) is None ==> (r matches Err(ControlError::InvalidArgument(m)) && m@ == "Invalid node ID"@) && final(self)@ == old(self)@,
            uuid_parse(node_id@) is Some ==> r == Ok::<bool, ControlError>(true),
            uuid_parse(node_id@) matches Some(id) ==> (old(self)@.contains_key(id) ==> final(self)@.contains_key(id)
                && final(self)@ == old(self)@.insert(id, NodeView { permissions: final(self)@[id].permissions, ..old(self)@[id] })
                && permissions_set_by(final(self)@[id].permissions, *req))
                && (!old(self)@.contains_key(id) ==> final(self)@ == old(self)@),
    {
        let id = match parse_uuid(node_id) {
            Some(i) => i,
            None => return Err(ControlError::InvalidArgument(String::from_str("Invalid node ID"))),
        };
        let ghost ps = node_pairs(self.nodes@);
        match self.find(id) {
            Some(i) => {
                proof {
                    lemma_map_lookup(ps, i as int);
                }
                let ghost old_nodes = self.nodes@;
                let mut n = self.nodes.remove(i);
                n.permissions = permissions_from(req);
                let ghost nv = node_view(n);
                proof {
                    lemma_map_update(ps, i as int, nv);
                }
                self.nodes.insert(i, n);
                assert(self.nodes@ =~= old_nodes.update(i as int, n));
                assert(node_pairs(self.nodes@) =~= ps.update(i as int, (ps[i as int].0, nv)));
            },
            None => {
                proof {
                    lemma_map_absent(ps, id);
                }
            },
        }
        Ok(true)
    }

    /// Whether a node can take shards of these sizes: it must be healthy,
    /// and the shards must fit in its VRAM and available RAM together; the
    /// load is estimated at a second per 100 MiB.
    pub fn prepare_plan(&self, node_id: &str, shard_bytes: &Vec<u64>) -> (r: Result<PreparePlanResponse, ControlError>)
        requires
            self.wf(),
            bytes_sum(shard_bytes@) <= u64::MAX,
            forall|id: NodeId| #[trigger] self.node(id) matches Some(n) ==> vram_total(n) + n.capabilities.memory.available_bytes <= u64::MAX,
            load_estimate(bytes_sum(shard_bytes@)) <= u32::MAX,
        ensures
            uuid_parse(node_id@) is None ==> (r matches Err(ControlError::InvalidArgument(m)) && m@ == "Invalid node ID"@),
            uuid_parse(node_id@) matches Some(id) ==> self.node(id) is None ==> (r matches Err(ControlError::NotFound(m)) && m@ == "Node not found"@),
            uuid_parse(node_id@) matches Some(id) ==> self.node(id) matches Some(n) ==> (r matches Ok(p) && {
                let total = bytes_sum(shard_bytes@);
                if n.status != NodeStatus::Healthy {
                    !p.accepted && p.rejection_reason@ == "Node status: "@ + status_name(n.status) && p.estimated_load_time_ms == 0
                } else if total > vram_total(n) + n.capabilities.memory.available_bytes {
                    !p.accepted && p.rejection_reason@ == "Insufficient memory for requested shards"@ && p.estimated_load_time_ms == 0
                } else {
                    p.accepted && p.rejection_reason@.len() == 0 && p.estimated_load_time_ms == load_estimate(total)
                }
            }),
    {
        let id = match parse_uuid(node_id) {
            Some(i) => i,
            None => return Err(ControlError::InvalidArgument(String::from_str("Invalid node ID"))),
        };
        let i = match self.find(id) {
            Some(i) => i,
            None => {
                proof {
                    assert(!(exists|k: int| 0 <= k < self.nodes@.len() && self.nodes@[k].id == id));
                }
                return Err(ControlError::NotFound(String::from_str("Node not found")));
            },
        };
        let node = &self.nodes[i];
        proof {
            let k = choose|k: int| 0 <= k < self.nodes@.len() && self.nodes@[k].id == id;
            if k != i {
                assert(node_pairs(self.nodes@)[k].0 == node_pairs(self.nodes@)[i as int].0);
            }
            assert(self.node(id) == Some(*node));
        }
        if node.status != NodeStatus::Healthy {
            let mut reason = String::from_str("Node status: ");
            let name = status_text(node.status);
            reason.append(name.as_str());
            return Ok(PreparePlanResponse { accepted: false, rejection_reason: reason, estimated_load_time_ms: 0 });
        }
        let total = sum_bytes(shard_bytes);
        let ghost vs = node.capabilities.gpus@.map_values(|g: crate::types::GpuCapabilities| g.vram_bytes);
        let mut vram: u64 = 0;
        let mut k: usize = 0;
        assert(vram_total(*node) + node.capabilities.memory.available_bytes <= u64::MAX);
        while k < node.capabilities.gpus.len()
            invariant
                k <= node.capabilities.gpus@.len(),
                vs == node.capabilities.gpus@.map_values(|g: crate::types::GpuCapabilities| g.vram_bytes),
                bytes_sum(vs) + node.capabilities.memory.available_bytes <= u64::MAX,
                vram == bytes_sum(vs.take(k as int)),
            decreases node.capabilities.gpus@.len() - k,
        {
            assert(vs.take(k + 1).drop_last() =~= vs.take(k as int));
            proof {
                lemma_bytes_sum_prefix(vs, k + 1);
            }
            vram = vram + node.capabilities.gpus[k].vram_bytes;
            k = k + 1;
        }
        assert(vs.take(k as int) =~= vs);
        if total > vram + node.capabilities.memory.available_bytes {
            return Ok(PreparePlanResponse {
                accepted: false,
                rejection_reason: String::from_str("Insufficient memory for requested shards"),
                estimated_load_time_ms: 0,
            });
        }
        let estimate = (total / (100 * 1024 * 1024)) as u32 * 1000;
        Ok(PreparePlanResponse { accepted: true, rejection_reason: String::new(), estimated_load_time_ms: estimate })
    }

    /// Commits the plan of a session: the session id must parse, and the
    /// commit is then acknowledged.
    pub fn commit_plan(&self, session_id: &str) -> (r: Result<bool, ControlError>)
        ensures
            uuid_parse(session_id@) is None ==> (r matches Err(ControlError::InvalidArgument(m)) && m@ == "Invalid session ID"@),
            uuid_parse(session_id@) is Some ==> r == Ok::<bool, ControlError>(true),
    {
        match parse_uuid(session_id) {
            Some(_) => Ok(true),
            None => Err(ControlError::InvalidArgument(String::from_str("Invalid session ID"))),
        }
    }

    /// Cancels the plan of a session: the session id must parse, and the
    /// cancellation is then acknowledged.
    pub fn cancel_plan(&self, session_id: &str) -> (r: Result<bool, ControlError>)
        ensures
            uuid_parse(session_id@) is None ==> (r matches Err(ControlError::InvalidArgument(m)) && m@ == "Invalid session ID"@),
            uuid_parse(session_id@) is Some ==> r == Ok::<bool, ControlError>(true),
    {
        match parse_uuid(session_id) {
            Some(_) => Ok(true),
            None => Err(ControlError::InvalidArgument(String::from_str("Invalid session ID"))),
        }
    }

    /// The heartbeat watchdog at `now`: nodes silent for more than 30
    /// seconds are dropped, healthy ones silent for more than 10 turn suspect.
    pub fn check_heartbeats(&mut self, now: Timestamp)
        requires
            old(self).wf(),
            forall|id: NodeId| #[trigger] old(self)@.contains_key(id) ==> i64::MIN < now - old(self)@[id].last_heartbeat <= i64::MAX,
        ensures
            final(self).wf(),
            final(self).id() == old(self).id(),
            final(self)@ == after_watch(old(self)@, now),
    {
        let ghost ps = node_pairs(self.nodes@);
        let ghost m0 = self@;
        let ghost old_nodes = self.nodes@;
        proof {
            assert forall|k: int| 0 <= k < old_nodes.len() implies i64::MIN < now - #[trigger] old_nodes[k].last_heartbeat <= i64::MAX by {
                lemma_map_lookup(ps, k);
            }
        }
        let mut rest: Vec<PhysicalNode> = Vec::new();
        std::mem::swap(&mut rest, &mut self.nodes);
        let n0 = rest.len();
        let mut kept: Vec<PhysicalNode> = Vec::new();
        let ghost mut origin: Seq<int> = Seq::empty();
        let mut taken: usize = 0;
        while rest.len() > 0
            invariant
                rest@ =~= old_nodes.skip(taken as int),
                taken + rest@.len() == old_nodes.len(),
                old_nodes.len() == n0,
                ps == node_pairs(old_nodes),
                keys_unique(ps),
                forall|k: int| 0 <= k < old_nodes.len() ==> i64::MIN < now - #[trigger] old_nodes[k].last_heartbeat <= i64::MAX,
                origin.len() == kept@.len(),
                forall|k: int| 0 <= k < kept@.len() ==> 0 <= #[trigger] origin[k] < taken
                    && kept@[k].id == old_nodes[origin[k]].id
                    && node_view(kept@[k]) == (NodeView { status: watched_status(ps[origin[k]].1, now), ..ps[origin[k]].1 })
                    && whole_seconds(now, ps[origin[k]].1.last_heartbeat) <= 30,
                forall|k: int, q: int| 0 <= k < q < kept@.len() ==> #[trigger] origin[k] < #[trigger] origin[q],
                forall|j: int| 0 <= j < taken && whole_seconds(now, ps[j].1.last_heartbeat) <= 30 ==> exists|k: int| 0 <= k < kept@.len() && #[trigger] origin[k] == j,
            decreases rest@.len(),
        {
            let ghost before_rest = rest@;
            let ghost origin0 = origin;
            let ghost kept_len0 = kept@.len();
            let mut n = rest.remove(0);
            assert(before_rest[0] == old_nodes[taken as int]);
            assert(rest@ =~= old_nodes.skip(taken + 1));
            assert(ps[taken as int] == (old_nodes[taken as int].id, node_view(old_nodes[taken as int])));
            let diff = now - n.last_heartbeat;
            let secs = if diff >= 0 { diff / 1000 } else { -((-diff) / 1000) };
            assert(secs == whole_seconds(now, n.last_heartbeat));
            if secs > 10 && n.status == NodeStatus::Healthy {
                n.status = NodeStatus::Suspect;
            }
            if secs <= 30 {
                proof {
                    origin = origin.push(taken as int);
                }
                kept.push(n);
            }
            taken = taken + 1;
            proof {
                assert forall|j: int| 0 <= j < taken && whole_seconds(now, ps[j].1.last_heartbeat) <= 30 implies exists|k: int| 0 <= k < kept@.len() && #[trigger] origin[k] == j by {
                    if j == taken - 1 {
                        assert(origin[kept@.len() - 1] == j);
                    } else {
                        let k = choose|k: int| 0 <= k < kept_len0 && #[trigger] origin0[k] == j;
                        assert(origin[k] == j);
                    }
                }
            }
        }
        proof {
            let kp = node_pairs(kept@);
            assert forall|a: int, b: int| 0 <= a < kp.len() && 0 <= b < kp.len() && a != b implies kp[a].0 != kp[b].0 by {
                if a < b {
                    assert(origin[a] < origin[b]);
                } else {
                    assert(origin[b] < origin[a]);
                }
            }
            let target = after_watch(m0, now);
            assert forall|k: NodeId| #[trigger] seq_to_map(kp).contains_key(k) == target.contains_key(k) by {
                crate::kvmap::lemma_map_domain(kp, k);
                crate::kvmap::lemma_map_domain(ps, k);
                if seq_to_map(kp).contains_key(k) {
                    let a = choose|a: int| 0 <= a < kp.len() && kp[a].0 == k;
                    lemma_map_lookup(ps, origin[a]);
                }
                if target.contains_key(k) {
                    let j = choose|j: int| 0 <= j < ps.len() && ps[j].0 == k;
                    lemma_map_lookup(ps, j);
                    let a = choose|a: int| 0 <= a < kept@.len() && #[trigger] origin[a] == j;
                    assert(kp[a].0 == k);
                }
            }
            assert forall|k: NodeId| #[trigger] seq_to_map(kp).contains_key(k) implies seq_to_map(kp)[k] == target[k] by {
                crate::kvmap::lemma_map_domain(kp, k);
                let a = choose|a: int| 0 <= a < kp.len() && kp[a].0 == k;
                lemma_map_lookup(kp, a);
                lemma_map_lookup(ps, origin[a]);
            }
            assert(seq_to_map(kp) =~= target);
        }
        self.nodes = kept;
    }

    /// The sums of the nodes' CPU cores, available RAM, GPU memory and
    /// available storage.
    pub fn resource_totals(&self) -> (r: ResourceTotals)
        requires
            self.wf(),
            totals_fit(self.node_list()),
        ensures
            r.cpu_cores == cores_sum(self.node_list()),
            r.host_memory_bytes == ram_sum(self.node_list()),
            r.device_memory_bytes == vram_sum(self.node_list()),
            r.storage_bytes == storage_sum(self.node_list()),
    {
        let mut cores: u64 = 0;
        let mut ram: u64 = 0;
        let mut vram: u64 = 0;
        let mut storage: u64 = 0;
        let mut i: usize = 0;
        while i < self.nodes.len()
            invariant
                i <= self.nodes@.len(),
                totals_fit(self.nodes@),
                cores == cores_sum(self.nodes@.take(i as int)),
                ram == ram_sum(self.nodes@.take(i as int)),
                vram == vram_sum(self.nodes@.take(i as int)),
                storage == storage_sum(self.nodes@.take(i as int)),
            decreases self.nodes@.len() - i,
        {
            let ghost t = self.nodes@.take(i + 1);
            assert(t.drop_last() =~= self.nodes@.take(i as int));
            proof {
                lemma_totals_prefix(self.nodes@, i + 1);
            }
            let n = &self.nodes[i];
            cores = cores + n.capabilities.cpu.cores as u64;
            ram = ram + n.capabilities.memory.available_bytes;
            let ghost vs = n.capabilities.gpus@.map_values(|g: crate::types::GpuCapabilities| g.vram_bytes);
            let mut k: usize = 0;
            let ghost vram0 = vram;
            while k < n.capabilities.gpus.len()
                invariant
                    k <= n.capabilities.gpus@.len(),
                    vs == n.capabilities.gpus@.map_values(|g: crate::types::GpuCapabilities| g.vram_bytes),
                    vram0 + bytes_sum(vs) <= u64::MAX,
                    vram == vram0 + bytes_sum(vs.take(k as int)),
                decreases n.capabilities.gpus@.len() - k,
            {
                assert(vs.take(k + 1).drop_last() =~= vs.take(k as int));
                proof {
                    lemma_bytes_sum_prefix(vs, k + 1);
                }
                vram = vram + n.capabilities.gpus[k].vram_bytes;
                k = k + 1;
            }
            assert(vs.take(k as int) =~= vs);
            storage = storage + n.capabilities.storage.available_bytes;
            i = i + 1;
        }
        assert(self.nodes@.take(i as int) =~= self.nodes@);
        ResourceTotals { cpu_cores: cores, host_memory_bytes: ram, device_memory_bytes: vram, storage_bytes: storage }
    }
}

pub open spec fn cores_sum(s: Seq<PhysicalNode>) -> int
    decreases s.len(),
{
    if s.len() == 0 {
        0
    } else {
        cores_sum(s.drop_last()) + s.last().capabilities.cpu.cores
    }
}

pub open spec fn ram_sum(s: Seq<PhysicalNode>) -> int
    decreases s.len(),
{
    if s.len() == 0 {
        0
    } else {
        ram_sum(s.drop_last()) + s.last().capabilities.memory.available_bytes
    }
}

pub open spec fn vram_sum(s: Seq<PhysicalNode>) -> int
    decreases s.len(),
{
    if s.len() == 0 {
        0
    } else {
        vram_sum(s.drop_last()) + vram_total(s.last())
    }
}

pub open spec fn storage_sum(s: Seq<PhysicalNode>) -> int
    decreases s.len(),
{
    if s.len() == 0 {
        0
    } else {
        storage_sum(s.drop_last()) + s.last().capabilities.storage.available_bytes
    }
}

/// The resource sums fit in a `u64`.
pub open spec fn totals_fit(s: Seq<PhysicalNode>) -> bool {
    &&& cores_sum(s) <= u64::MAX
    &&& ram_sum(s) <= u64::MAX
    &&& vram_sum(s) <= u64::MAX
    &&& storage_sum(s) <= u64::MAX
}

proof fn lemma_bytes_sum_prefix(s: Seq<u64>, k: int)
    requires
        0 <= k <= s.len(),
    ensures
        0 <= bytes_sum(s.take(k)) <= bytes_sum(s),
    decreases s.len() - k,
{
    if k < s.len() {
        lemma_bytes_sum_prefix(s, k + 1);
        assert(s.take(k + 1).drop_last() =~= s.take(k));
    } else {
        assert(s.take(k) =~= s);
    }
    lemma_bytes_sum_nonneg(s.take(k));
}

proof fn lemma_bytes_sum_nonneg(s: Seq<u64>)
    ensures
        bytes_sum(s) >= 0,
    decreases s.len(),
{
    if s.len() > 0 {
        lemma_bytes_sum_nonneg(s.drop_last());
    }
}

proof fn lemma_totals_prefix(s: Seq<PhysicalNode>, k: int)
    requires
        0 <= k <= s.len(),
    ensures
        0 <= cores_sum(s.take(k)) <= cores_sum(s),
        0 <= ram_sum(s.take(k)) <= ram_sum(s),
        0 <= vram_sum(s.take(k)) <= vram_sum(s),
        0 <= storage_sum(s.take(k)) <= storage_sum(s),
    decreases s.len() - k,
{
    if k < s.len() {
        lemma_totals_prefix(s, k + 1);
        assert(s.take(k + 1).drop_last() =~= s.take(k));
        lemma_bytes_sum_nonneg(s[k].capabilities.gpus@.map_values(|g: crate::types::GpuCapabilities| g.vram_bytes));
    } else {
        assert(s.take(k) =~= s);
    }
    lemma_totals_nonneg(s.take(k));
}

proof fn lemma_totals_nonneg(s: Seq<PhysicalNode>)
    ensures
        cores_sum(s) >= 0,
        ram_sum(s) >= 0,
        vram_sum(s) >= 0,
        storage_sum(s) >= 0,
    decreases s.len(),
{
    if s.len() > 0 {
        lemma_totals_nonneg(s.drop_last());
        lemma_bytes_sum_nonneg(s.last().capabilities.gpus@.map_values(|g: crate::types::GpuCapabilities| g.vram_bytes));
    }
}

/// The sum of some byte counts.
fn sum_bytes(s: &Vec<u64>) -> (r: u64)
    requires
        bytes_sum(s@) <= u64::MAX,
    ensures
        r == bytes_sum(s@),
{
    let mut total: u64 = 0;
    let mut i: usize = 0;
    while i < s.len()
        invariant
            i <= s@.len(),
            bytes_sum(s@) <= u64::MAX,
            total == bytes_sum(s@.take(i as int)),
        decreases s@.len() - i,
    {
        assert(s@.take(i + 1).drop_last() =~= s@.take(i as int));
        proof {
            lemma_bytes_sum_prefix(s@, i + 1);
        }
        total = total + s[i];
        i = i + 1;
    }
    assert(s@.take(i as int) =~= s@);
    total
}

/// The watchdog keeps a node that sent a heartbeat at most 10 seconds ago
/// as it is; a healthy node silent for 11 to 30 seconds turns suspect with
/// everything else kept, a node in any other status silent that long is
/// kept as it is, and one silent for more than 30 seconds is dropped; no
/// other node appears. Running the watchdog twice at the same time changes
/// nothing more.
pub proof fn law_watchdog(m: Map<NodeId, NodeView>, now: Timestamp, id: NodeId)
    ensures
        m.contains_key(id) && whole_seconds(now, m[id].last_heartbeat) <= 10
            ==> after_watch(m, now).contains_key(id) && after_watch(m, now)[id] == m[id],
        m.contains_key(id) && m[id].status == NodeStatus::Healthy && 10 < whole_seconds(now, m[id].last_heartbeat) <= 30
            ==> after_watch(m, now).contains_key(id) && after_watch(m, now)[id] == (NodeView { status: NodeStatus::Suspect, ..m[id] }),
        m.contains_key(id) && m[id].status != NodeStatus::Healthy && whole_seconds(now, m[id].last_heartbeat) <= 30
            ==> after_watch(m, now).contains_key(id) && after_watch(m, now)[id] == m[id],
        m.contains_key(id) && whole_seconds(now, m[id].last_heartbeat) > 30 ==> !after_watch(m, now).contains_key(id),
        !m.contains_key(id) ==> !after_watch(m, now).contains_key(id),
        after_watch(after_watch(m, now), now) == after_watch(m, now),
{
    assert(after_watch(after_watch(m, now), now) =~= after_watch(m, now));
}

} // verus!

