use tensorgrid::coordinator::{
    benchmark, default_permissions, permissions_from, run_benchmark, BenchmarkType, ClusterState, ControlError, RegisterRequest,
    SetPermissionsRequest,
};
use tensorgrid::desktop::ClusterClient;
use tensorgrid::hardware::ProbeError;
use tensorgrid::node_agent::{
    base_url, capabilities_or_default, current_resources, default_capabilities, heartbeat_url, register_url,
    registration_request, AgentAction, AgentError, HeartbeatLoop, NodeAgent, RegisterResponse,
};
use tensorgrid::quic::{length_prefix, parse_tensor_metadata, read_length_prefix, tensor_message, QuicError, QuicServer};
use tensorgrid::types::{
    CpuCapabilities, MemoryCapabilities, NetworkCapabilities, NodeCapabilities, NodePermissions,
    NodeResources, NodeStatus, PhysicalNode, RuntimeBackend, StorageCapabilities,
};

const GIB: u64 = 1024 * 1024 * 1024;

fn uuid_string(v: u128) -> String {
    uuid::Uuid::from_u128(v).to_string()
}

fn parse_uuid(s: &str) -> Option<u128> {
    uuid::Uuid::parse_str(s).ok().map(|u| u.as_u128())
}

fn new_id() -> u128 {
    uuid::Uuid::new_v4().as_u128()
}

fn test_capabilities() -> NodeCapabilities {
    NodeCapabilities {
        cpu: CpuCapabilities {
            architecture: "x86_64".to_string(),
            cores: 8,
            threads: 16,
            frequency_mhz: 3000,
            features: vec!["avx2".to_string(), "sse4.2".to_string()],
            numa_nodes: 1,
        },
        gpus: vec![],
        memory: MemoryCapabilities { total_bytes: 32 * GIB, available_bytes: 32 * GIB, bandwidth_mbps: 25000 },
        storage: StorageCapabilities {
            total_bytes: 1024 * GIB,
            available_bytes: 1024 * GIB,
            read_throughput_mbps: 3500,
            write_throughput_mbps: 3000,
        },
        network: NetworkCapabilities { interfaces: vec![] },
        supported_runtimes: vec![RuntimeBackend::GGML],
    }
}

fn zero_resources() -> NodeResources {
    NodeResources {
        cpu_usage_percent_bits: 0.0f32.to_bits(),
        memory_used_bytes: 0,
        memory_committed_bytes: 0,
        gpu_usage: vec![],
        network_tx_mbps_bits: 0.0f32.to_bits(),
        network_rx_mbps_bits: 0.0f32.to_bits(),
        temperature_celsius_bits: None,
    }
}

fn test_permissions() -> NodePermissions {
    NodePermissions {
        max_cpu_percent: 80,
        max_cpu_threads: None,
        max_ram_bytes: 16 * GIB,
        gpu_enabled: true,
        max_vram_bytes: 8 * GIB,
        max_storage_bytes: 100 * GIB,
        allow_when_on_battery: false,
        pause_when_user_active: true,
        allowed_schedule: None,
    }
}

// ----- cluster types -----

#[test]
fn test_cluster_state() {
    let cluster_id = new_id();
    let node_id = new_id();
    let node = PhysicalNode {
        id: node_id,
        name: "test-node".to_string(),
        hostname: "test-host".to_string(),
        cluster_id,
        capabilities: test_capabilities(),
        resources: zero_resources(),
        permissions: test_permissions(),
        status: NodeStatus::Healthy,
        last_heartbeat: chrono::Utc::now().timestamp_millis(),
        certificate_fingerprint: None,
    };
    assert_eq!(node.id, node_id);
    assert_eq!(node.status, NodeStatus::Healthy);
    assert_eq!(node.capabilities.cpu.cores, 8);
}

#[test]
fn test_resource_tracking() {
    let mut resources = zero_resources();
    resources.cpu_usage_percent_bits = 50.0f32.to_bits();
    resources.memory_used_bytes = 8 * GIB;
    resources.network_tx_mbps_bits = 100.0f32.to_bits();
    resources.network_rx_mbps_bits = 50.0f32.to_bits();
    assert_eq!(f32::from_bits(resources.cpu_usage_percent_bits), 50.0);
    assert_eq!(resources.memory_used_bytes, 8 * GIB);
}

#[test]
fn test_node_status_transitions() {
    let mut status = NodeStatus::Suspect;
    assert_eq!(status, NodeStatus::Suspect);
    status = NodeStatus::Healthy;
    assert_eq!(status, NodeStatus::Healthy);
    status = NodeStatus::Draining;
    assert_eq!(status, NodeStatus::Draining);
    status = NodeStatus::Offline;
    assert_eq!(status, NodeStatus::Offline);
}

#[test]
fn test_permissions_validation() {
    let permissions = test_permissions();
    assert!(permissions.max_cpu_percent <= 100);
    assert!(permissions.max_ram_bytes > 0);
    assert!(permissions.gpu_enabled);
}

#[test]
fn uuid_text_roundtrip() {
    let id = new_id();
    let url = heartbeat_url("http://c", id);
    assert_eq!(url, format!("http://c/api/nodes/{}/heartbeat", uuid::Uuid::from_u128(id)));
    let text = uuid::Uuid::from_u128(id).to_string();
    let mut agent = NodeAgent::new(new_id(), "http://c".to_string());
    let ok = RegisterResponse { success: true, node_id: text, error_message: None };
    assert_eq!(agent.record_registration(&ok), Ok(id));
    assert_eq!(agent.node_id, Some(id));
}

// ----- coordinator -----

fn register(state: &mut ClusterState, cluster_id: &str) -> Result<tensorgrid::coordinator::RegisterResponse, ControlError> {
    state.register(&RegisterRequest {
        node_name: "test-node".to_string(),
        hostname: "test-host".to_string(),
        cluster_id: cluster_id.to_string(),
        pairing_signature: vec![1, 2, 3, 4, 5, 6, 7, 8, 9],
    })
}

#[test]
fn registration_adds_a_suspect_node() {
    let mut state = ClusterState::new();
    let cluster = uuid_string(state.cluster_id());
    let resp = register(&mut state, &cluster).unwrap();
    assert!(resp.success);
    assert_eq!(resp.device_certificate.len(), 32);
    assert!(resp.error_message.is_empty());
    let id = parse_uuid(&resp.node_id).unwrap();
    let nodes = state.nodes();
    assert_eq!(nodes.len(), 1);
    assert_eq!(nodes[0].id, id);
    assert_eq!(nodes[0].status, NodeStatus::Suspect);
    assert_eq!(nodes[0].name, "test-node");
    assert_eq!(nodes[0].certificate_fingerprint, Some("0102030405060708".to_string()));
    assert_eq!(nodes[0].permissions.max_cpu_percent, 80);
}

#[test]
fn registration_checks_the_cluster() {
    let mut state = ClusterState::new();
    match register(&mut state, "garbage") {
        Err(ControlError::InvalidArgument(m)) => assert_eq!(m, "Invalid cluster ID"),
        _ => panic!("expected InvalidArgument"),
    }
    let resp = register(&mut state, &uuid_string(new_id())).unwrap();
    assert!(!resp.success);
    assert_eq!(resp.error_message, "Cluster ID mismatch");
    assert!(state.nodes().is_empty());
}

#[test]
fn heartbeat_probe_drain_and_watchdog() {
    let mut state = ClusterState::new();
    let cluster = uuid_string(state.cluster_id());
    let id_text = register(&mut state, &cluster).unwrap().node_id;

    let mut res = zero_resources();
    res.memory_used_bytes = 5;
    let hb = state.heartbeat(&id_text, res, 41).unwrap();
    assert!(hb.acknowledged);
    assert_eq!(hb.expected_sequence, 42);
    assert_eq!(state.nodes()[0].status, NodeStatus::Healthy);
    assert_eq!(state.nodes()[0].resources.memory_used_bytes, 5);
    assert!(matches!(state.heartbeat("nope", zero_resources(), 1), Err(ControlError::InvalidArgument(_))));

    state.apply_probe(&id_text, test_capabilities()).unwrap();
    assert_eq!(state.nodes()[0].capabilities.cpu.cores, 8);

    let plan = state.prepare_plan(&id_text, &vec![GIB, GIB]).unwrap();
    assert!(plan.accepted);
    assert_eq!(plan.estimated_load_time_ms, 20000);
    let too_big = state.prepare_plan(&id_text, &vec![64 * GIB]).unwrap();
    assert!(!too_big.accepted);
    assert_eq!(too_big.rejection_reason, "Insufficient memory for requested shards");
    assert!(matches!(state.prepare_plan(&uuid_string(new_id()), &vec![]), Err(ControlError::NotFound(_))));

    let totals = state.resource_totals();
    assert_eq!(totals.cpu_cores, 8);
    assert_eq!(totals.host_memory_bytes, 32 * GIB);

    let d = state.drain(&id_text, true).unwrap();
    assert!(d.draining);
    assert_eq!(d.estimated_seconds, 5);
    assert_eq!(state.nodes()[0].status, NodeStatus::Draining);
    let not_ready = state.prepare_plan(&id_text, &vec![1]).unwrap();
    assert_eq!(not_ready.rejection_reason, "Node status: Draining");

    let last = state.nodes()[0].last_heartbeat;
    state.check_heartbeats(last + 10_999);
    assert_eq!(state.nodes().len(), 1);
    state.check_heartbeats(last + 31_000);
    assert!(state.nodes().is_empty());
}

#[test]
fn watchdog_marks_silent_healthy_nodes_suspect() {
    let mut state = ClusterState::new();
    let cluster = uuid_string(state.cluster_id());
    let id_text = register(&mut state, &cluster).unwrap().node_id;
    state.heartbeat(&id_text, zero_resources(), 0).unwrap();
    let last = state.nodes()[0].last_heartbeat;
    state.check_heartbeats(last + 5_000);
    assert_eq!(state.nodes()[0].status, NodeStatus::Healthy);
    state.check_heartbeats(last + 15_000);
    assert_eq!(state.nodes()[0].status, NodeStatus::Suspect);
}

#[test]
fn permissions_requests() {
    let mut state = ClusterState::new();
    let cluster = uuid_string(state.cluster_id());
    let id_text = register(&mut state, &cluster).unwrap().node_id;
    let req = SetPermissionsRequest {
        max_cpu_percent: 300,
        max_cpu_threads: 0,
        max_ram_bytes: 4 * GIB,
        gpu_enabled: false,
        max_vram_bytes: 0,
        max_storage_bytes: 10 * GIB,
        allow_when_on_battery: true,
        pause_when_user_active: false,
        allowed_schedule: vec!["22:00-07:00".to_string()],
    };
    assert_eq!(state.set_permissions(&id_text, &req), Ok(true));
    let p = &state.nodes()[0].permissions;
    assert_eq!(p.max_cpu_percent, 44);
    assert_eq!(p.max_cpu_threads, None);
    assert_eq!(p.max_ram_bytes, 4 * GIB);
    assert_eq!(p.allowed_schedule.as_ref().unwrap().allowed_hours, vec!["22:00-07:00".to_string()]);
    let p2 = permissions_from(&SetPermissionsRequest { max_cpu_threads: 4, allowed_schedule: vec![], ..req });
    assert_eq!(p2.max_cpu_threads, Some(4));
    assert!(p2.allowed_schedule.is_none());
    let d = default_permissions();
    assert_eq!(d.max_vram_bytes, 8 * GIB);
}

#[test]
fn plans_and_benchmarks() {
    let state = ClusterState::new();
    let sid = uuid_string(new_id());
    assert_eq!(state.commit_plan(&sid), Ok(true));
    assert_eq!(state.cancel_plan(&sid), Ok(true));
    assert_eq!(state.commit_plan("x"), Err(ControlError::InvalidArgument("Invalid session ID".to_string())));
    let b = run_benchmark(BenchmarkType::CpuMatrix).unwrap();
    assert_eq!(b.metric, "gflops");
    assert_eq!(f64::from_bits(b.value_bits), 50.0);
    assert_eq!(b.duration_ms, 100);
    let b = run_benchmark(BenchmarkType::NetworkBandwidth).unwrap();
    assert_eq!(f64::from_bits(b.value_bits), 8500.0);
    assert_eq!(run_benchmark(BenchmarkType::Unspecified).unwrap_err(), "Unsupported benchmark type");
}

// ----- node agent -----

#[test]
fn agent_urls() {
    assert_eq!(base_url("10.0.0.5:8080"), "http://10.0.0.5:8080");
    assert_eq!(base_url("https://coord"), "https://coord");
    assert_eq!(base_url("http://localhost:8080"), "http://localhost:8080");
    assert_eq!(register_url("http://c"), "http://c/api/nodes/register");
    let id = new_id();
    assert_eq!(heartbeat_url("http://c", id), format!("http://c/api/nodes/{}/heartbeat", uuid::Uuid::from_u128(id)));
}

#[test]
fn agent_defaults() {
    let caps = default_capabilities();
    assert_eq!(caps.cpu.cores, 4);
    assert_eq!(caps.cpu.threads, 8);
    assert_eq!(caps.memory.total_bytes, 16 * GIB);
    assert_eq!(caps.storage.total_bytes, 1024 * GIB);
    assert_eq!(caps.supported_runtimes, vec![RuntimeBackend::GGML, RuntimeBackend::CPU]);
    let probed = capabilities_or_default(Ok(test_capabilities()));
    assert_eq!(probed.cpu.cores, 8);
    let fallback = capabilities_or_default(Err(ProbeError::Failed("no sysinfo".to_string())));
    assert_eq!(fallback.cpu.cores, 4);
    let r = current_resources(12.5f32.to_bits(), 1234);
    assert_eq!(r.memory_used_bytes, 1234);
    assert_eq!(r.memory_committed_bytes, 1234);
    assert_eq!(f32::from_bits(r.cpu_usage_percent_bits), 12.5);
}

#[test]
fn agent_registration() {
    let cluster_id = new_id();
    let mut agent = NodeAgent::new(cluster_id, "http://localhost:8080".to_string());
    assert!(agent.node_id.is_none());
    assert_eq!(agent.permissions.max_cpu_percent, 80);
    let paired = new_id();
    let req = registration_request(paired, "host-1", cluster_id, default_capabilities(), current_resources(0, 0));
    assert_eq!(req.node_id, uuid_string(paired));
    assert_eq!(req.node_name, "host-1");
    assert_eq!(req.hostname, "host-1");
    assert_eq!(req.cluster_id, uuid::Uuid::from_u128(cluster_id).to_string());

    let refused = RegisterResponse { success: false, node_id: String::new(), error_message: None };
    assert_eq!(
        agent.record_registration(&refused),
        Err(AgentError::RegistrationFailed("Registration failed: Unknown error".to_string()))
    );
    let refused = RegisterResponse { success: false, node_id: String::new(), error_message: Some("full".to_string()) };
    assert_eq!(
        agent.record_registration(&refused),
        Err(AgentError::RegistrationFailed("Registration failed: full".to_string()))
    );
    let bad = RegisterResponse { success: true, node_id: "zzz".to_string(), error_message: None };
    assert_eq!(agent.record_registration(&bad), Err(AgentError::InvalidNodeId("zzz".to_string())));
    assert!(agent.node_id.is_none());
    let id = new_id();
    let ok = RegisterResponse { success: true, node_id: uuid_string(id), error_message: None };
    assert_eq!(agent.record_registration(&ok), Ok(id));
    assert_eq!(agent.node_id, Some(id));
}

#[test]
fn test_heartbeat_sequence() {
    let mut lp = HeartbeatLoop::new(true);
    for i in 1..=10u64 {
        assert_eq!(lp.next(), AgentAction::SendHeartbeat(i - 1));
        assert_eq!(lp.on_heartbeat(true), AgentAction::Sleep(2));
        assert_eq!(lp.sequence, i);
    }
    assert_eq!(lp.sequence, 10);
}

#[test]
fn heartbeat_loop_gives_up_after_five_failures() {
    let mut lp = HeartbeatLoop::new(true);
    assert_eq!(lp.on_heartbeat(false), AgentAction::Sleep(2));
    assert_eq!(lp.next(), AgentAction::Register(1));
    assert_eq!(lp.on_registered(false), AgentAction::Sleep(10));
    assert_eq!(lp.on_registered(false), AgentAction::Sleep(15));
    assert_eq!(lp.on_registered(true), AgentAction::SendHeartbeat(0));
    assert_eq!(lp.reconnect_attempts, 0);
    for expected in [AgentAction::Sleep(2), AgentAction::Sleep(10), AgentAction::Sleep(15), AgentAction::Sleep(20)] {
        let action = if lp.connected { lp.on_heartbeat(false) } else { lp.on_registered(false) };
        assert_eq!(action, expected);
    }
    assert_eq!(lp.reconnect_attempts, 4);
    assert_eq!(lp.on_registered(false), AgentAction::Stop);
}

// ----- desktop -----

#[test]
fn desktop_client_urls() {
    let mut client = ClusterClient::default_coordinator();
    assert_eq!(client.base_url, "http://[::1]:8080");
    assert_eq!(client.cluster_url(), "http://[::1]:8080/api/cluster");
    assert_eq!(client.nodes_url(), "http://[::1]:8080/api/cluster/nodes");
    assert_eq!(client.models_url(), "http://[::1]:8080/api/v1/models");
    client.set_coordinator_url("http://other:9000".to_string());
    assert_eq!(client.models_url(), "http://other:9000/api/v1/models");
    assert_eq!(ClusterClient::new("x".to_string()).cluster_url(), "x/api/cluster");
}

// ----- QUIC -----

#[test]
fn quic_message_roundtrip() {
    let msg = tensor_message("layer.0", &[9, 8, 7]);
    let len = read_length_prefix(&msg[..4]) as usize;
    let (id, size) = parse_tensor_metadata(&msg[4..4 + len]).unwrap();
    assert_eq!(id, "layer.0");
    assert_eq!(size, 3);
    assert_eq!(&msg[4 + len..], &[9, 8, 7]);
    assert_eq!(std::str::from_utf8(&msg[4..4 + len]).unwrap(), r#"{"size":3,"tensor_id":"layer.0"}"#);
}

#[test]
fn quic_metadata_errors() {
    assert_eq!(length_prefix(258), vec![0, 0, 1, 2]);
    assert_eq!(read_length_prefix(&[0, 0, 1, 2]), 258);
    assert_eq!(parse_tensor_metadata(br#"{"size":3}"#), Err(QuicError::ParseError("Missing tensor_id".to_string())));
    assert_eq!(parse_tensor_metadata(br#"{"tensor_id":"t"}"#), Err(QuicError::ParseError("Missing size".to_string())));
    assert!(matches!(parse_tensor_metadata(b"{oops"), Err(QuicError::ParseError(_))));
}

#[test]
fn quic_server_tracks_connections() {
    let mut server = QuicServer::new();
    let a = new_id();
    assert_eq!(server.check_destination(a), Err(QuicError::NodeNotFound(a)));
    server.connected(a);
    server.connected(a);
    server.connected(new_id());
    assert_eq!(server.get_stats().active_connections, 2);
    assert!(server.check_destination(a).is_ok());
}

#[test]
fn http_registration_and_heartbeat() {
    let mut state = ClusterState::new();
    let cluster = uuid_string(state.cluster_id());
    let unpaired = state.register_node(&uuid_string(new_id()), "n0".to_string(), "h0".to_string(), &cluster, test_capabilities(), zero_resources());
    assert!(!unpaired.success);
    assert_eq!(unpaired.error_message, Some("Node not paired".to_string()));
    assert!(state.nodes().is_empty());

    let first = pair_with(&mut state);
    let resp = state.register_node(&first, "n1".to_string(), "h1".to_string(), &cluster, test_capabilities(), zero_resources());
    assert!(resp.success);
    assert!(resp.error_message.is_none());
    assert_eq!(resp.node_id, first);
    let id = parse_uuid(&resp.node_id).unwrap();
    assert_eq!(state.nodes().len(), 1);
    assert_eq!(state.nodes()[0].id, id);
    assert_eq!(state.nodes()[0].status, NodeStatus::Healthy);
    assert_eq!(state.nodes()[0].hostname, "h1");
    assert_eq!(state.nodes()[0].cluster_id, state.cluster_id());

    let second = pair_with(&mut state);
    let other = state.register_node(&second, "n2".to_string(), "h2".to_string(), "not-a-uuid", test_capabilities(), zero_resources());
    assert!(other.success);
    assert_eq!(state.nodes()[1].cluster_id, state.cluster_id());
    assert_ne!(other.node_id, resp.node_id);

    let mut res = zero_resources();
    res.memory_used_bytes = 42;
    let hb = state.send_heartbeat(&resp.node_id, res);
    assert!(hb.success);
    assert_eq!(state.nodes()[0].resources.memory_used_bytes, 42);

    let bad = state.send_heartbeat("garbage", zero_resources());
    assert!(!bad.success);
    assert_eq!(bad.error_message, Some("Invalid node ID".to_string()));
    let missing = state.send_heartbeat(&uuid_string(new_id()), zero_resources());
    assert!(!missing.success);
    assert_eq!(missing.error_message, Some("Node not found".to_string()));
}

#[test]
fn benchmark_requests() {
    let id = uuid_string(new_id());
    let ok = benchmark(&id, BenchmarkType::GpuMatrix).unwrap();
    assert!(ok.success);
    let b = ok.result.unwrap();
    assert_eq!(b.metric, "tflops");
    assert_eq!(f64::from_bits(b.value_bits), 10.0);
    assert_eq!(b.duration_ms, 200);
    let refused = benchmark(&id, BenchmarkType::Unspecified).unwrap();
    assert!(!refused.success);
    assert!(refused.result.is_none());
    assert_eq!(refused.error_message, "Unsupported benchmark type");
    match benchmark("node-1", BenchmarkType::CpuMatrix) {
        Err(ControlError::InvalidArgument(m)) => assert_eq!(m, "Invalid node ID"),
        _ => panic!("expected InvalidArgument"),
    }
}

fn busy_resources() -> NodeResources {
    NodeResources {
        cpu_usage_percent_bits: 50.0f32.to_bits(),
        memory_used_bytes: 8 * 1024 * 1024 * 1024,
        memory_committed_bytes: 8 * 1024 * 1024 * 1024,
        gpu_usage: vec![],
        network_tx_mbps_bits: 100.0f32.to_bits(),
        network_rx_mbps_bits: 50.0f32.to_bits(),
        temperature_celsius_bits: Some(45.0f32.to_bits()),
    }
}

#[test]
fn test_heartbeat_flow() {
    let mut state = ClusterState::new();
    let node_id = uuid_string(new_id());
    let response = state.heartbeat(&node_id, busy_resources(), 1).unwrap();
    assert!(response.acknowledged);
}

#[test]
fn test_probe_request() {
    let mut state = ClusterState::new();
    let node_id = uuid_string(new_id());
    assert!(state.apply_probe(&node_id, test_capabilities()).is_ok());
}

#[test]
fn test_benchmark_request() {
    let node_id = uuid_string(new_id());
    let response = benchmark(&node_id, BenchmarkType::CpuMatrix).unwrap();
    assert!(response.success);
}

#[test]
fn test_multiple_heartbeats() {
    let mut state = ClusterState::new();
    let node_id = uuid_string(new_id());
    for sequence in 1..=5u64 {
        let response = state.heartbeat(&node_id, busy_resources(), sequence).unwrap();
        assert!(response.acknowledged);
        assert_eq!(response.expected_sequence, sequence + 1);
    }
}

/// Pairs a fresh node agent with the coordinator's state; the id it was paired under.
fn pair_with(state: &mut ClusterState) -> String {
    let agent = NodeAgent::new(state.cluster_id(), "http://c".to_string());
    let challenge = state.begin_pairing(&agent.pairing_request("host"));
    assert_eq!(challenge.challenge.len(), 32);
    let answer = agent.answer_challenge(&challenge);
    state.complete_pairing(&answer, &agent.pairing.public_key()).unwrap();
    uuid_string(challenge.node_id)
}

#[test]
fn pairing_then_registration_refuses_a_bad_signature() {
    let mut state = ClusterState::new();
    let agent = NodeAgent::new(state.cluster_id(), "http://c".to_string());
    let other = NodeAgent::new(state.cluster_id(), "http://c".to_string());
    let challenge = state.begin_pairing(&agent.pairing_request("host"));
    let forged = other.answer_challenge(&challenge);
    assert!(state.complete_pairing(&forged, &agent.pairing.public_key()).is_err());
    let cluster = uuid_string(state.cluster_id());
    let resp = state.register_node(&uuid_string(challenge.node_id), "n".to_string(), "h".to_string(), &cluster, test_capabilities(), zero_resources());
    assert!(!resp.success);
    assert!(state.nodes().is_empty());
}

#[test]
fn registration_returns_the_coordinator_key() {
    let mut state = ClusterState::new();
    let agent = NodeAgent::new(state.cluster_id(), "http://c".to_string());
    let key = state.begin_pairing(&agent.pairing_request("host")).coordinator_public_key;
    let cluster = uuid_string(state.cluster_id());
    let resp = register(&mut state, &cluster).unwrap();
    assert_eq!(resp.device_certificate, key);
    // A foreign cluster id is answered before the signature is read.
    let short = state.register(&RegisterRequest {
        node_name: "n".to_string(),
        hostname: "h".to_string(),
        cluster_id: uuid_string(new_id()),
        pairing_signature: vec![],
    }).unwrap();
    assert!(!short.success);
}

#[test]
fn a_short_signature_for_this_cluster_is_not_registered() {
    let mut state = ClusterState::new();
    let cluster = uuid_string(state.cluster_id());
    let req = RegisterRequest {
        node_name: "n".to_string(),
        hostname: "h".to_string(),
        cluster_id: cluster.clone(),
        pairing_signature: vec![1, 2, 3],
    };
    assert!(state.try_register(&req).is_none());
    assert!(state.nodes().is_empty());
    let ok = RegisterRequest { pairing_signature: vec![1, 2, 3, 4, 5, 6, 7, 8], ..req };
    let resp = state.try_register(&ok).unwrap().unwrap();
    assert!(resp.success);
    assert_eq!(state.nodes().len(), 1);
}

#[test]
fn heartbeats_record_their_time() {
    let mut state = ClusterState::new();
    let first = pair_with(&mut state);
    let cluster = uuid_string(state.cluster_id());
    state.register_node_at(&first, "n".to_string(), "h".to_string(), &cluster, test_capabilities(), zero_resources(), 5_000);
    assert_eq!(state.nodes()[0].last_heartbeat, 5_000);
    state.heartbeat_at(&first, zero_resources(), 3, 7_000).unwrap();
    assert_eq!(state.nodes()[0].last_heartbeat, 7_000);
    assert!(state.send_heartbeat_at(&first, zero_resources(), 9_000).success);
    assert_eq!(state.nodes()[0].last_heartbeat, 9_000);
    state.check_heartbeats(9_000 + 10_999);
    assert_eq!(state.nodes()[0].status, NodeStatus::Healthy);
    state.check_heartbeats(9_000 + 31_000);
    assert!(state.nodes().is_empty());
}

#[test]
fn registration_at_a_given_time() {
    let mut state = ClusterState::new();
    let cluster = uuid_string(state.cluster_id());
    let req = RegisterRequest {
        node_name: "n".to_string(),
        hostname: "h".to_string(),
        cluster_id: cluster,
        pairing_signature: vec![1, 2, 3, 4, 5, 6, 7, 8],
    };
    let resp = state.register_at(&req, 42, vec![3; 32], 12_345, 12).unwrap();
    assert!(resp.success);
    assert_eq!(resp.node_id, uuid_string(42));
    assert_eq!(state.nodes()[0].id, 42);
    assert_eq!(state.nodes()[0].last_heartbeat, 12_345);
}

#[test]
fn probe_answers_with_the_capabilities() {
    let mut caps = test_capabilities();
    caps.supported_runtimes = vec![tensorgrid::types::RuntimeBackend::CUDA, tensorgrid::types::RuntimeBackend::CPU];
    caps.gpus = vec![tensorgrid::types::GpuCapabilities {
        id: "gpu0".to_string(),
        name: "RTX".to_string(),
        vendor: tensorgrid::types::GpuVendor::Nvidia,
        vram_bytes: 8 * GIB,
        compute_capability: Some("8.6".to_string()),
        supports_peer_to_peer: true,
        supports_nvml: true,
        supported_precisions: vec![tensorgrid::types::Precision::Fp16, tensorgrid::types::Precision::Int8],
    }];
    caps.network.interfaces = vec![tensorgrid::types::NetworkInterface {
        name: "eth0".to_string(),
        ip_address: "10.0.0.2".to_string(),
        mac_address: "aa:bb".to_string(),
        bandwidth_mbps: 1000,
        supports_rdma: false,
    }];
    let resp = tensorgrid::coordinator::probe_response(caps);
    let c = resp.capabilities.unwrap();
    assert_eq!(c.supported_runtimes, vec!["CUDA".to_string(), "CPU".to_string()]);
    assert_eq!(c.gpus[0].vendor, "Nvidia");
    assert_eq!(c.gpus[0].supported_precisions, vec!["Fp16".to_string(), "Int8".to_string()]);
    assert_eq!(c.gpus[0].compute_capability, Some("8.6".to_string()));
    assert_eq!(c.cpu.cores, 8);
    assert_eq!(resp.interfaces.len(), 1);
    assert_eq!(resp.interfaces[0].name, "eth0");
}

#[test]
fn sequence_moves_only_on_delivered_heartbeats() {
    let mut lp = HeartbeatLoop::new(false);
    assert_eq!(lp.next(), AgentAction::Register(0));
    assert_eq!(lp.on_registered(true), AgentAction::SendHeartbeat(0));
    assert_eq!(lp.on_heartbeat(true), AgentAction::Sleep(2));
    assert_eq!(lp.next(), AgentAction::SendHeartbeat(1));
    assert_eq!(lp.on_heartbeat(false), AgentAction::Sleep(2));
    assert_eq!(lp.sequence, 1);
    assert!(!lp.connected);
    assert_eq!(lp.next(), AgentAction::Register(1));
    assert_eq!(lp.on_registered(true), AgentAction::SendHeartbeat(1));
    assert_eq!(lp.reconnect_attempts, 0);
    assert_eq!(lp.on_heartbeat(true), AgentAction::Sleep(2));
    assert_eq!(lp.next(), AgentAction::SendHeartbeat(2));
}
