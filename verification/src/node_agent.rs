//! The node agent: what it tells the coordinator when it registers, how it
//! reads the answer, and the decisions of its heartbeat loop.
//!
//! The loop sends a heartbeat every 2 seconds. When the coordinator cannot
//! be reached it registers again, waiting 5 seconds more after each failed
//! attempt, and gives up after 5 failures in a row.

use vstd::prelude::*;
use crate::coordinator::default_permissions;
use crate::hardware::ProbeError;
use crate::pairing::{PairingManager, PairingRequest, PairingChallenge, PairingResponse, generate_fingerprint, signature_bytes_ok, signature_verifies};
use crate::model_registry::sha256;
use crate::text::hex_lower;
use crate::runtimes::common::{GIB, starts_with};
use crate::types::{
    NodeId, ClusterId, NodeCapabilities, NodeResources, NodePermissions, CpuCapabilities,
    MemoryCapabilities, StorageCapabilities, NetworkCapabilities, RuntimeBackend, uuid_text,
    uuid_string, uuid_parse, parse_uuid,
};

verus! {

/// Consecutive failures after which the heartbeat loop gives up.
pub const MAX_RECONNECT_ATTEMPTS: u32 = 5;

/// Seconds between two heartbeats.
pub const HEARTBEAT_INTERVAL_SECS: u64 = 2;

/// Seconds waited after a failed registration, per failure so far.
pub const RECONNECT_BACKOFF_SECS: u64 = 5;

/// Why the agent could not join the cluster.
#[derive(Debug, Clone, PartialEq, Eq)]
pub enum AgentError {
    /// The coordinator refused the registration, with its reason.
    RegistrationFailed(String),
    /// The coordinator answered with a node id that is no UUID.
    InvalidNodeId(String),
}

/// The capabilities a node assumes when probing its hardware fails: 4 cores
/// and 8 threads at 3 GHz, 16 GiB of memory, 1 TiB of storage, no GPU, and
/// the GGML and CPU runtimes.
pub fn default_capabilities() -> (r: NodeCapabilities)
    ensures
        r.cpu.architecture@ == "unknown"@,
        r.cpu.cores == 4,
        r.cpu.threads == 8,
        r.cpu.frequency_mhz == 3000,
        r.cpu.features@.len() == 0,
        r.cpu.numa_nodes == 1,
        r.gpus@.len() == 0,
        r.memory.total_bytes == 16 * GIB,
        r.memory.available_bytes == 16 * GIB,
        r.memory.bandwidth_mbps == 25000,
        r.storage.total_bytes == 1024 * GIB,
        r.storage.available_bytes == 1024 * GIB,
        r.storage.read_throughput_mbps == 3500,
        r.storage.write_throughput_mbps == 3000,
        r.network.interfaces@.len() == 0,
        r.supported_runtimes@ == seq![RuntimeBackend::GGML, RuntimeBackend::CPU],
{
    let mut runtimes: Vec<RuntimeBackend> = Vec::new();
    runtimes.push(RuntimeBackend::GGML);
    runtimes.push(RuntimeBackend::CPU);
    NodeCapabilities {
        cpu: CpuCapabilities {
            architecture: String::from_str("unknown"),
            cores: 4,
            threads: 8,
            frequency_mhz: 3000,
            features: Vec::new(),
            numa_nodes: 1,
        },
        gpus: Vec::new(),
        memory: MemoryCapabilities {
            total_bytes: 16 * GIB,
            available_bytes: 16 * GIB,
            bandwidth_mbps: 25000,
        },
        storage: StorageCapabilities {
            total_bytes: 1024 * GIB,
            available_bytes: 1024 * GIB,
            read_throughput_mbps: 3500,
            write_throughput_mbps: 3000,
        },
        network: NetworkCapabilities { interfaces: Vec::new() },
        supported_runtimes: runtimes,
    }
}

/// The capabilities the agent works with: the probed ones, or the defaults
/// when probing failed.
pub fn capabilities_or_default(probed: Result<NodeCapabilities, ProbeError>) -> (r: NodeCapabilities)
    ensures
        probed is Ok ==> r == probed->Ok_0,
        probed is Err ==> r.cpu.cores == 4 && r.cpu.threads == 8 && r.gpus@.len() == 0
            && r.memory.total_bytes == 16 * GIB && r.storage.total_bytes == 1024 * GIB
            && r.supported_runtimes@ == seq![RuntimeBackend::GGML, RuntimeBackend::CPU],
{
    match probed {
        Ok(c) => c,
        Err(_) => default_capabilities(),
    }
}

/// The resources a node reports: its CPU load (the bits of an `f32`
/// percentage) and the memory in use, which also counts as committed; no
/// GPU, network or temperature readings.
pub fn current_resources(cpu_usage_percent_bits: u32, used_memory_bytes: u64) -> (r: NodeResources)
    ensures
        r.cpu_usage_percent_bits == cpu_usage_percent_bits,
        r.memory_used_bytes == used_memory_bytes,
        r.memory_committed_bytes == used_memory_bytes,
        r.gpu_usage@.len() == 0,
        r.network_tx_mbps_bits == 0,
        r.network_rx_mbps_bits == 0,
        r.temperature_celsius_bits is None,
{
    NodeResources {
        cpu_usage_percent_bits,
        memory_used_bytes: used_memory_bytes,
        memory_committed_bytes: used_memory_bytes,
        gpu_usage: Vec::new(),
        network_tx_mbps_bits: 0,
        network_rx_mbps_bits: 0,
        temperature_celsius_bits: None,
    }
}

/// The base URL of the coordinator: the address itself when it names
/// `http://` or `https://`, else the address behind `http://`.
pub open spec fn base_url_of(addr: Seq<char>) -> Seq<char> {
    if (7 <= addr.len() && addr.subrange(0, 7) == "http://"@) || (8 <= addr.len() && addr.subrange(0, 8) == "https://"@) {
        addr
    } else {
        "http://"@ + addr
    }
}

/// The coordinator's base URL for an address.
pub fn base_url(addr: &str) -> (r: String)
    ensures
        r@ == base_url_of(addr@),
{
    proof {
        reveal_strlit("http://");
        reveal_strlit("https://");
    }
    if starts_with(addr, "http://") || starts_with(addr, "https://") {
        String::from_str(addr)
    } else {
        let mut url = String::from_str("http://");
        url.append(addr);
        url
    }
}

/// Where a node asks for a pairing challenge: `<base>/api/nodes/pair`.
pub fn pair_url(base: &str) -> (r: String)
    ensures
        r@ == base@ + "/api/nodes/pair"@,
{
    let mut url = String::from_str(base);
    url.append("/api/nodes/pair");
    url
}

/// Where a node answers its pairing challenge: `<base>/api/nodes/pair/complete`.
pub fn pair_complete_url(base: &str) -> (r: String)
    ensures
        r@ == base@ + "/api/nodes/pair/complete"@,
{
    let mut url = String::from_str(base);
    url.append("/api/nodes/pair/complete");
    url
}

/// Where a node registers: `<base>/api/nodes/register`.
pub fn register_url(base: &str) -> (r: String)
    ensures
        r@ == base@ + "/api/nodes/register"@,
{
    let mut url = String::from_str(base);
    url.append("/api/nodes/register");
    url
}

/// Where a node sends its heartbeats: `<base>/api/nodes/<node id>/heartbeat`.
pub fn heartbeat_url(base: &str, node_id: NodeId) -> (r: String)
    ensures
        r@ == base@ + "/api/nodes/"@ + uuid_text(node_id) + "/heartbeat"@,
{
    let mut url = String::from_str(base);
    url.append("/api/nodes/");
    let id = uuid_string(node_id);
    url.append(id.as_str());
    url.append("/heartbeat");
    url
}

/// What a node sends to register: the id its pairing gave it, its
/// hostname, which also names it, its cluster's id, its capabilities and
/// its current resources.
#[derive(Debug, Clone)]
pub struct RegisterRequest {
    pub node_id: String,
    pub node_name: String,
    pub hostname: String,
    pub cluster_id: String,
    pub capabilities: NodeCapabilities,
    pub resources: NodeResources,
}

/// The coordinator's answer to a registration.
#[derive(Debug, Clone)]
pub struct RegisterResponse {
    pub success: bool,
    pub node_id: String,
    pub error_message: Option<String>,
}

/// The coordinator's answer to a heartbeat.
#[derive(Debug, Clone)]
pub struct HeartbeatResponse {
    pub success: bool,
    pub error_message: Option<String>,
}

/// The registration request of a node paired under `node_id`, with this
/// hostname, in this cluster.
pub fn registration_request(
    node_id: NodeId,
    hostname: &str,
    cluster_id: ClusterId,
    capabilities: NodeCapabilities,
    resources: NodeResources,
) -> (r: RegisterRequest)
    ensures
        r.node_id@ == uuid_text(node_id),
        r.node_name@ == hostname@,
        r.hostname@ == hostname@,
        r.cluster_id@ == uuid_text(cluster_id),
        r.capabilities == capabilities,
        r.resources == resources,
{
    RegisterRequest {
        node_id: uuid_string(node_id),
        node_name: String::from_str(hostname),
        hostname: String::from_str(hostname),
        cluster_id: uuid_string(cluster_id),
        capabilities,
        resources,
    }
}

/// The message of a refused registration: the coordinator's reason, or
/// `Unknown error` when it gave none.
pub open spec fn refusal_text(message: Option<String>) -> Seq<char> {
    "Registration failed: "@ + match message {
        Some(m) => m@,
        None => "Unknown error"@,
    }
}

/// The node agent's own state: its id once registered, its cluster, the
/// coordinator's address, its pairing keys and its permissions.
pub struct NodeAgent {
    pub node_id: Option<NodeId>,
    pub cluster_id: ClusterId,
    pub coordinator_addr: String,
    pub pairing: PairingManager,
    pub permissions: NodePermissions,
}

impl NodeAgent {
    /// An unregistered agent of a cluster, with a fresh key pair and the
    /// default permissions.
    pub fn new(cluster_id: ClusterId, coordinator_addr: String) -> (r: Self)
        ensures
            r.node_id is None,
            r.cluster_id == cluster_id,
            r.coordinator_addr@ == coordinator_addr@,
            r.pairing.wf(),
            r.pairing@.cluster_id == cluster_id,
            r.permissions.max_cpu_percent == 80,
            r.permissions.max_ram_bytes == 16 * GIB,
            r.permissions.gpu_enabled,
            r.permissions.max_vram_bytes == 8 * GIB,
            r.permissions.max_storage_bytes == 100 * GIB,
            !r.permissions.allow_when_on_battery,
            r.permissions.pause_when_user_active,
            r.permissions.allowed_schedule is None,
    {
        let pairing = PairingManager::new_node(cluster_id).unwrap();
        NodeAgent {
            node_id: None,
            cluster_id,
            coordinator_addr,
            pairing,
            permissions: default_permissions(),
        }
    }

    /// What the agent asks the coordinator to pair: its hostname, which also
    /// names it, its cluster, its public key and that key's fingerprint.
    pub fn pairing_request(&self, hostname: &str) -> (r: PairingRequest)
        requires
            self.pairing.wf(),
        ensures
            r.node_name@ == hostname@,
            r.hostname@ == hostname@,
            r.cluster_id == self.cluster_id,
            r.public_key@ == self.pairing@.public_key,
            r.fingerprint@ == hex_lower(sha256(self.pairing@.public_key).take(8)),
    {
        let public_key = self.pairing.public_key();
        let fingerprint = generate_fingerprint(public_key.as_slice());
        PairingRequest {
            node_name: String::from_str(hostname),
            hostname: String::from_str(hostname),
            cluster_id: self.cluster_id,
            public_key,
            fingerprint,
        }
    }

    /// The agent's answer to a pairing challenge: the challenge echoed and
    /// signed with the agent's key.
    pub fn answer_challenge(&self, challenge: &PairingChallenge) -> (r: PairingResponse)
        requires
            self.pairing.wf(),
        ensures
            r.node_id == challenge.node_id,
            r.challenge_response@ == challenge.challenge@,
            r.challenge_signature@ == self.pairing.signature_of(challenge.challenge@),
            signature_bytes_ok(r.challenge_signature@),
            signature_verifies(self.pairing@.public_key, challenge.challenge@, r.challenge_signature@),
    {
        let signature = match self.pairing.sign_challenge(challenge.challenge.as_slice()) {
            Ok(s) => s,
            Err(_) => Vec::new(),
        };
        let echoed = challenge.challenge.clone();
        assert(echoed@ =~= challenge.challenge@);
        PairingResponse { node_id: challenge.node_id, challenge_response: echoed, challenge_signature: signature }
    }

    /// The node id a heartbeat is sent for: the one the latest successful
    /// registration recorded, none before any.
    pub fn heartbeat_target(&self) -> (r: Option<NodeId>)
        ensures
            r == self.node_id,
    {
        self.node_id
    }

    /// Takes the coordinator's answer to a registration: a success records
    /// the node id it names; a refusal, or an id that is no UUID, is an
    /// error and leaves the agent as it was.
    pub fn record_registration(&mut self, response: &RegisterResponse) -> (r: Result<NodeId, AgentError>)
        ensures
            final(self).cluster_id == old(self).cluster_id,
            final(self).coordinator_addr == old(self).coordinator_addr,
            final(self).pairing == old(self).pairing,
            final(self).permissions == old(self).permissions,
            !response.success ==> (r matches Err(AgentError::RegistrationFailed(m)) && m@ == refusal_text(response.error_message))
                && final(self).node_id == old(self).node_id,
            response.success && uuid_parse(response.node_id@) is None ==> (r matches Err(AgentError::InvalidNodeId(m)) && m@ == response.node_id@)
                && final(self).node_id == old(self).node_id,
            response.success ==> (uuid_parse(response.node_id@) matches Some(id) ==> r == Ok::<NodeId, AgentError>(id)
                && final(self).node_id == Some(id)),
    {
        if !response.success {
            let mut message = String::from_str("Registration failed: ");
            match &response.error_message {
                Some(m) => message.append(m.as_str()),
                None => message.append("Unknown error"),
            }
            return Err(AgentError::RegistrationFailed(message));
        }
        match parse_uuid(response.node_id.as_str()) {
            Some(id) => {
                self.node_id = Some(id);
                Ok(id)
            },
            None => Err(AgentError::InvalidNodeId(response.node_id.clone())),
        }
    }
}

/// What the heartbeat loop does next.
#[derive(Debug, Clone, Copy, PartialEq, Eq, Structural)]
pub enum AgentAction {
    /// Register with the coordinator; the number of failures so far.
    Register(u32),
    /// Send the heartbeat with this sequence number.
    SendHeartbeat(u64),
    /// Wait this many seconds, then ask `next` again.
    Sleep(u64),
    /// Give up.
    Stop,
}

/// The state of the heartbeat loop: the next sequence number, the failures
/// in a row, and whether a coordinator connection is at hand.
#[derive(Debug, Clone, Copy, PartialEq, Eq, Structural)]
pub struct HeartbeatLoop {
    pub sequence: u64,
    pub reconnect_attempts: u32,
    pub connected: bool,
}

/// The loop after a registration attempt, and what it does next.
pub open spec fn after_registration(s: HeartbeatLoop, ok: bool) -> (HeartbeatLoop, AgentAction) {
    if ok {
        (HeartbeatLoop { reconnect_attempts: 0, connected: true, ..s }, AgentAction::SendHeartbeat(s.sequence))
    } else {
        let a = (s.reconnect_attempts + 1) as u32;
        (HeartbeatLoop { reconnect_attempts: a, ..s },
            if a >= MAX_RECONNECT_ATTEMPTS { AgentAction::Stop } else { AgentAction::Sleep((RECONNECT_BACKOFF_SECS * a) as u64) })
    }
}

/// The loop after a heartbeat, and what it does next.
pub open spec fn after_heartbeat(s: HeartbeatLoop, ok: bool) -> (HeartbeatLoop, AgentAction) {
    if ok {
        (HeartbeatLoop { sequence: (s.sequence + 1) as u64, reconnect_attempts: 0, connected: true },
            AgentAction::Sleep(HEARTBEAT_INTERVAL_SECS))
    } else {
        let a = (s.reconnect_attempts + 1) as u32;
        (HeartbeatLoop { reconnect_attempts: a, connected: false, ..s },
            if a >= MAX_RECONNECT_ATTEMPTS { AgentAction::Stop } else { AgentAction::Sleep(HEARTBEAT_INTERVAL_SECS) })
    }
}

impl HeartbeatLoop {
    /// A loop that has not failed yet, starting at sequence 0; `connected`
    /// when the agent registered before.
    pub fn new(connected: bool) -> (r: Self)
        ensures
            r == (HeartbeatLoop { sequence: 0, reconnect_attempts: 0, connected }),
    {
        HeartbeatLoop { sequence: 0, reconnect_attempts: 0, connected }
    }

    /// The loop still runs: fewer than five failures in a row.
    pub open spec fn running(&self) -> bool {
        self.reconnect_attempts < MAX_RECONNECT_ATTEMPTS
    }

    /// The first step of a round: register when no connection is at hand,
    /// else send the next heartbeat.
    pub fn next(&self) -> (r: AgentAction)
        ensures
            r == (if self.connected { AgentAction::SendHeartbeat(self.sequence) } else { AgentAction::Register(self.reconnect_attempts) }),
    {
        if self.connected {
            AgentAction::SendHeartbeat(self.sequence)
        } else {
            AgentAction::Register(self.reconnect_attempts)
        }
    }

    /// Takes the outcome of a registration.
    pub fn on_registered(&mut self, ok: bool) -> (r: AgentAction)
        requires
            old(self).running(),
        ensures
            (*final(self), r) == after_registration(*old(self), ok),
    {
        if ok {
            self.reconnect_attempts = 0;
            self.connected = true;
            AgentAction::SendHeartbeat(self.sequence)
        } else {
            self.reconnect_attempts = self.reconnect_attempts + 1;
            if self.reconnect_attempts >= MAX_RECONNECT_ATTEMPTS {
                AgentAction::Stop
            } else {
                AgentAction::Sleep(RECONNECT_BACKOFF_SECS * self.reconnect_attempts as u64)
            }
        }
    }

    /// Takes the outcome of a heartbeat; a sent heartbeat needs a next
    /// sequence number.
    pub fn on_heartbeat(&mut self, ok: bool) -> (r: AgentAction)
        requires
            old(self).running(),
            ok ==> old(self).sequence < u64::MAX,
        ensures
            (*final(self), r) == after_heartbeat(*old(self), ok),
    {
        if ok {
            self.sequence = self.sequence + 1;
            self.reconnect_attempts = 0;
            self.connected = true;
            AgentAction::Sleep(HEARTBEAT_INTERVAL_SECS)
        } else {
            self.connected = false;
            self.reconnect_attempts = self.reconnect_attempts + 1;
            if self.reconnect_attempts >= MAX_RECONNECT_ATTEMPTS {
                AgentAction::Stop
            } else {
                AgentAction::Sleep(HEARTBEAT_INTERVAL_SECS)
            }
        }
    }
}

/// One failed step of the loop: a failed registration, or a failed heartbeat.
pub open spec fn fail_step(s: HeartbeatLoop, registering: bool) -> (HeartbeatLoop, AgentAction) {
    if registering { after_registration(s, false) } else { after_heartbeat(s, false) }
}

/// The loop after a run of failed steps, registrations where `steps` holds
/// `true` and heartbeats where it holds `false`.
pub open spec fn fail_run(s: HeartbeatLoop, steps: Seq<bool>) -> HeartbeatLoop
    decreases steps.len(),
{
    if steps.len() == 0 {
        s
    } else {
        fail_run(fail_step(s, steps[0]).0, steps.drop_first())
    }
}

/// Failures in a row, of registrations and heartbeats alike, are counted one
/// by one; the loop keeps running and its sequence number stays, and the
/// failure that brings the count to five, and no earlier one, stops it.
pub proof fn law_gives_up_after_five_failures(s: HeartbeatLoop, steps: Seq<bool>, last: bool)
    requires
        s.running(),
        s.reconnect_attempts + steps.len() < MAX_RECONNECT_ATTEMPTS,
    ensures
        fail_run(s, steps).running(),
        fail_run(s, steps).reconnect_attempts == s.reconnect_attempts + steps.len(),
        fail_run(s, steps).sequence == s.sequence,
        fail_step(fail_run(s, steps), last).1 == AgentAction::Stop
            <==> s.reconnect_attempts + steps.len() + 1 == MAX_RECONNECT_ATTEMPTS,
    decreases steps.len(),
{
    if steps.len() > 0 {
        law_gives_up_after_five_failures(fail_step(s, steps[0]).0, steps.drop_first(), last);
    }
}

/// A heartbeat that goes through clears the failures and advances the
/// sequence number by exactly one.
pub proof fn law_heartbeat_resets_failures(s: HeartbeatLoop)
    requires
        s.running(),
        s.sequence < u64::MAX,
    ensures
        after_heartbeat(s, true).0.reconnect_attempts == 0,
        after_heartbeat(s, true).0.sequence == s.sequence + 1,
        after_heartbeat(s, true).0.running(),
        after_heartbeat(s, true).1 == AgentAction::Sleep(HEARTBEAT_INTERVAL_SECS),
{
}


/// One round of the loop on an outcome: a registration when no connection
/// is at hand, else a heartbeat.
pub open spec fn loop_step(s: HeartbeatLoop, ok: bool) -> (HeartbeatLoop, AgentAction) {
    if s.connected { after_heartbeat(s, ok) } else { after_registration(s, ok) }
}

/// The loop after rounds with these outcomes, in order.
pub open spec fn run_rounds(s: HeartbeatLoop, oks: Seq<bool>) -> HeartbeatLoop
    decreases oks.len(),
{
    if oks.len() == 0 {
        s
    } else {
        loop_step(run_rounds(s, oks.drop_last()), oks.last()).0
    }
}

/// The failures at the end of a run of outcomes, since the last success.
pub open spec fn trailing_failures(oks: Seq<bool>) -> int
    decreases oks.len(),
{
    if oks.len() == 0 {
        0
    } else if oks.last() {
        0
    } else {
        trailing_failures(oks.drop_last()) + 1
    }
}

/// The heartbeats that went through over a run of rounds: the rounds that
/// found a connection at hand and succeeded.
pub open spec fn delivered(s: HeartbeatLoop, oks: Seq<bool>) -> int
    decreases oks.len(),
{
    if oks.len() == 0 {
        0
    } else {
        delivered(s, oks.drop_last()) + if run_rounds(s, oks.drop_last()).connected && oks.last() { 1int } else { 0int }
    }
}

/// Over any run of rounds, registrations and heartbeats alike, that starts
/// with no failure: the loop counts exactly the failures since the last
/// success, the round that brings that count to five (and no other) stops
/// it; the sequence number moves only when a heartbeat goes through, by
/// one each time; and after a round a connection is at hand exactly when
/// that round succeeded, so a failed heartbeat is followed by a
/// registration.
pub proof fn law_loop_counts_trailing_failures(s: HeartbeatLoop, oks: Seq<bool>)
    requires
        s.reconnect_attempts == 0,
        s.sequence + oks.len() <= u64::MAX,
        forall|k: int| 0 <= k < oks.len() ==> #[trigger] trailing_failures(oks.take(k)) < MAX_RECONNECT_ATTEMPTS,
    ensures
        run_rounds(s, oks).reconnect_attempts == trailing_failures(oks),
        oks.len() > 0 ==> (loop_step(run_rounds(s, oks.drop_last()), oks.last()).1 == AgentAction::Stop
            <==> trailing_failures(oks) == MAX_RECONNECT_ATTEMPTS),
        run_rounds(s, oks).sequence == s.sequence + delivered(s, oks),
        0 <= delivered(s, oks) <= oks.len(),
        oks.len() > 0 ==> run_rounds(s, oks).connected == oks.last(),
    decreases oks.len(),
{
    if oks.len() > 0 {
        let q = oks.drop_last();
        assert forall|k: int| 0 <= k < q.len() implies #[trigger] trailing_failures(q.take(k)) < MAX_RECONNECT_ATTEMPTS by {
            assert(q.take(k) =~= oks.take(k));
        }
        law_loop_counts_trailing_failures(s, q);
        assert(oks.take(q.len() as int) =~= q);
        assert(trailing_failures(oks.take(q.len() as int)) < MAX_RECONNECT_ATTEMPTS);
    }
}

} // verus!

