use tensorgrid::observability::{LogContext, MetricsCollector};
use tensorgrid::pairing::{generate_fingerprint, PairingError, PairingManager, PairingRequest, PairingResponse};
use tensorgrid::rdma::{ConnectionState, RdmaClient, RdmaError, RdmaServer};
use tensorgrid::runtime_adapter::RuntimeAdapter;
use tensorgrid::runtimes::cpu::CpuRuntime;
use tensorgrid::runtimes::cuda::{CudaError, CudaRuntime};
use tensorgrid::runtimes::ggml::{GgmlError, GgmlRuntime};
use tensorgrid::runtimes::mlx::MlxRuntime;
use tensorgrid::runtimes::rocm::RocmRuntime;
use tensorgrid::topology::{LinkQuality, TopologyProfiler};
use tensorgrid::types::{LinkMeasurement, RuntimeBackend, StageExecution, TensorHandle, TensorSpec};

fn new_id() -> u128 {
    uuid::Uuid::new_v4().as_u128()
}

// ----- runtimes -----

#[test]
fn test_cpu_runtime_creation() {
    let runtime = CpuRuntime::new();
    assert_eq!(runtime.backend, RuntimeBackend::CPU);
}

#[test]
fn test_cuda_runtime_creation() {
    let runtime = CudaRuntime::new(0, false);
    assert!(runtime.is_ok());

    if let Ok(runtime) = runtime {
        assert_eq!(runtime.backend, RuntimeBackend::CUDA);
        assert_eq!(runtime.device_id, 0);
    }
}

#[test]
fn test_device_info() {
    let runtime = CudaRuntime::new(0, false).unwrap();
    if runtime.is_available() {
        let info = runtime.get_device_info();
        assert!(info.is_ok());
        if let Ok(info) = info {
            assert!(!info.name.is_empty());
            assert!(info.total_memory > 0);
        }
    } else {
        assert_eq!(runtime.get_device_info().unwrap_err(), CudaError::DeviceNotInitialized);
    }
}

#[test]
fn cuda_device_that_is_ready() {
    let runtime = CudaRuntime::new(1, true).unwrap();
    assert!(runtime.is_available());
    let info = runtime.get_device_info().unwrap();
    assert!(!info.name.is_empty());
    assert!(info.total_memory > 0);
}

#[test]
fn test_ggml_runtime_creation() {
    let runtime = GgmlRuntime::new();
    assert_eq!(runtime.backend, RuntimeBackend::GGML);
}

#[test]
fn test_probe_capabilities() {
    let runtime = GgmlRuntime::new();
    let caps = runtime.probe();

    assert_eq!(caps.backend, RuntimeBackend::GGML);
    assert!(caps.supports_cpu);
    assert!(!caps.supported_dtypes.is_empty());
}

#[test]
fn test_allocate_tensor() {
    let runtime = GgmlRuntime::new();
    let spec = TensorSpec {
        tensor_id: "test_tensor".to_string(),
        shape: vec![128, 128],
        dtype: "f32".to_string(),
        bytes: 128 * 128 * 4,
    };
    let result = runtime.allocate_tensor(&spec);
    assert!(result.is_ok());
}

#[test]
fn ggml_refuses_empty_and_huge_tensors() {
    let runtime = GgmlRuntime::new();
    let empty = TensorSpec { tensor_id: "e".to_string(), shape: vec![], dtype: "f32".to_string(), bytes: 0 };
    assert_eq!(
        runtime.allocate_tensor(&empty).unwrap_err(),
        GgmlError::TensorAllocationFailed("Tensor size cannot be zero".to_string())
    );
    let huge = TensorSpec { tensor_id: "h".to_string(), shape: vec![], dtype: "f32".to_string(), bytes: 17 * 1024 * 1024 * 1024 };
    assert!(matches!(runtime.allocate_tensor(&huge), Err(GgmlError::TensorAllocationFailed(_))));
}

#[test]
fn test_execute_stage() {
    let runtime = GgmlRuntime::new();
    let request = StageExecution { stage_id: 0, input_tensors: vec![], parameters: vec![] };
    let result = runtime.execute_stage(&request);
    assert!(result.is_ok());
}

#[test]
fn stage_output_is_as_large_as_the_input() {
    let runtime = CpuRuntime::new();
    let input = TensorHandle { tensor_id: "x".to_string(), device: "cpu:0".to_string(), offset: 0, size: 300 * 1024 * 1024 };
    let request = StageExecution { stage_id: 4, input_tensors: vec![input], parameters: vec![] };
    let work = runtime.execute_stage(&request).unwrap();
    assert_eq!(work.output_tensors.len(), 1);
    assert_eq!(work.output_tensors[0].size, 300 * 1024 * 1024);
    assert_eq!(work.output_tensors[0].device, "cpu:0");
}

#[test]
fn test_mlx_runtime_creation() {
    let runtime = MlxRuntime::new();
    assert!(runtime.is_ok());
    if let Ok(runtime) = runtime {
        assert_eq!(runtime.backend, RuntimeBackend::MLX);
    }
}

#[test]
fn lib_test_device_availability() {
    let runtime = MlxRuntime::new().unwrap();
    assert!(!runtime.is_available());
}

#[test]
fn test_rocm_runtime_creation() {
    let runtime = RocmRuntime::new(0);
    assert!(runtime.is_ok());
    if let Ok(runtime) = runtime {
        assert_eq!(runtime.backend, RuntimeBackend::ROCm);
        assert_eq!(runtime.device_id, 0);
    }
}

#[test]
fn rocm_device_availability() {
    let runtime = RocmRuntime::new(0).unwrap();
    assert!(!runtime.is_available());
}

#[test]
fn adapter_probe_and_placeholders() {
    let adapter = RuntimeAdapter::new();
    assert_eq!(adapter.backend, RuntimeBackend::GGML);
    let caps = adapter.probe();
    assert_eq!(caps.supported_dtypes, vec!["f32".to_string(), "f16".to_string(), "q4_k_m".to_string()]);
    assert_eq!(caps.max_tensor_size, 16 * 1024 * 1024 * 1024);
    let spec = TensorSpec { tensor_id: "t".to_string(), shape: vec![1], dtype: "f32".to_string(), bytes: 4 };
    let h = adapter.allocate_tensor(&spec).unwrap();
    assert_eq!(h.tensor_id, "placeholder");
    assert_eq!(h.device, "cpu");
}

// ----- topology -----

#[test]
fn test_link_quality_estimation() {
    let excellent = LinkMeasurement {
        from: new_id(),
        to: new_id(),
        transport: "tcp".to_string(),
        latency_us: 50,
        bandwidth_mbps: 10000,
        jitter_us: 10,
        packet_loss_bits: 0.0f32.to_bits(),
    };
    assert_eq!(TopologyProfiler::estimate_link_quality(&excellent), LinkQuality::Excellent);

    let poor = LinkMeasurement {
        from: new_id(),
        to: new_id(),
        transport: "tcp".to_string(),
        latency_us: 5000,
        bandwidth_mbps: 100,
        jitter_us: 500,
        packet_loss_bits: 5.0f32.to_bits(),
    };
    assert_eq!(TopologyProfiler::estimate_link_quality(&poor), LinkQuality::Poor);
}

#[test]
fn link_quality_thresholds() {
    let m = |lat: u32, bw: u32| TopologyProfiler::link_measurement(lat, bw, 0);
    assert_eq!(TopologyProfiler::estimate_link_quality(&m(100, 10000)), LinkQuality::Good);
    assert_eq!(TopologyProfiler::estimate_link_quality(&m(499, 2500)), LinkQuality::Good);
    assert_eq!(TopologyProfiler::estimate_link_quality(&m(1999, 1000)), LinkQuality::Acceptable);
    assert_eq!(TopologyProfiler::estimate_link_quality(&m(2000, 1000)), LinkQuality::Poor);
}

#[test]
fn every_pair_of_nodes_is_measured_once() {
    let pairs = TopologyProfiler::link_pairs(&vec![1, 2, 3]);
    assert_eq!(pairs, vec![(1, 2), (1, 3), (2, 3)]);
    assert!(TopologyProfiler::link_pairs(&vec![7]).is_empty());
}

// ----- pairing -----

fn pair(coordinator: &mut PairingManager, node: &PairingManager, cluster_id: u128) -> tensorgrid::pairing::DeviceCertificate {
    let node_public_key = node.public_key();
    let request = PairingRequest {
        node_name: "test-node".to_string(),
        hostname: "test-host".to_string(),
        cluster_id,
        public_key: node_public_key.clone(),
        fingerprint: generate_fingerprint(&node_public_key),
    };
    let challenge = coordinator.generate_challenge(&request).unwrap();
    let challenge_response = challenge.challenge.clone();
    let challenge_signature = node.sign_challenge(&challenge_response).unwrap();
    let response = PairingResponse { node_id: challenge.node_id, challenge_response, challenge_signature };
    coordinator.verify_response(&response, &node_public_key).unwrap()
}

#[test]
fn test_pairing_flow() {
    let cluster_id = new_id();
    let mut coordinator = PairingManager::new_coordinator(cluster_id).unwrap();
    let node = PairingManager::new_node(cluster_id).unwrap();
    let node_public_key = node.public_key();

    let request = PairingRequest {
        node_name: "test-node".to_string(),
        hostname: "test-host".to_string(),
        cluster_id,
        public_key: node_public_key.clone(),
        fingerprint: generate_fingerprint(&node_public_key),
    };

    let challenge = coordinator.generate_challenge(&request).unwrap();
    let challenge_response = challenge.challenge.clone();
    let challenge_signature = node.sign_challenge(&challenge_response).unwrap();

    let response = PairingResponse { node_id: challenge.node_id, challenge_response, challenge_signature };

    let certificate = coordinator.verify_response(&response, &node_public_key).unwrap();

    assert_eq!(certificate.node_id, challenge.node_id);
    assert_eq!(certificate.cluster_id, cluster_id);
}

#[test]
fn test_certificate_verification() {
    let cluster_id = new_id();
    let mut coordinator = PairingManager::new_coordinator(cluster_id).unwrap();
    let coordinator_public_key = coordinator.public_key();
    let node = PairingManager::new_node(cluster_id).unwrap();

    let certificate = pair(&mut coordinator, &node, cluster_id);

    let valid = coordinator.verify_certificate(&certificate, &coordinator_public_key).unwrap();
    assert!(valid);
}

#[test]
fn a_challenge_is_answered_once() {
    let cluster_id = new_id();
    let mut coordinator = PairingManager::new_coordinator(cluster_id).unwrap();
    let node = PairingManager::new_node(cluster_id).unwrap();
    let key = node.public_key();
    let request = PairingRequest {
        node_name: "n".to_string(),
        hostname: "h".to_string(),
        cluster_id,
        public_key: key.clone(),
        fingerprint: generate_fingerprint(&key),
    };
    let challenge = coordinator.generate_challenge(&request).unwrap();
    assert_eq!(challenge.challenge.len(), 32);
    assert_eq!(challenge.coordinator_public_key, coordinator.public_key());
    let signature = node.sign_challenge(&challenge.challenge).unwrap();
    let response = PairingResponse { node_id: challenge.node_id, challenge_response: challenge.challenge.clone(), challenge_signature: signature };
    coordinator.verify_response(&response, &key).unwrap();
    assert_eq!(coordinator.registered_nodes(), vec![challenge.node_id]);
    assert!(matches!(coordinator.verify_response(&response, &key), Err(PairingError::ChallengeNotFound)));
    coordinator.revoke_node(challenge.node_id).unwrap();
    assert!(coordinator.registered_nodes().is_empty());
}

#[test]
fn a_wrong_signature_is_refused() {
    let cluster_id = new_id();
    let mut coordinator = PairingManager::new_coordinator(cluster_id).unwrap();
    let node = PairingManager::new_node(cluster_id).unwrap();
    let other = PairingManager::new_node(cluster_id).unwrap();
    let key = node.public_key();
    let request = PairingRequest {
        node_name: "n".to_string(),
        hostname: "h".to_string(),
        cluster_id,
        public_key: key.clone(),
        fingerprint: generate_fingerprint(&key),
    };
    let challenge = coordinator.generate_challenge(&request).unwrap();
    let signature = other.sign_challenge(&challenge.challenge).unwrap();
    let response = PairingResponse { node_id: challenge.node_id, challenge_response: challenge.challenge.clone(), challenge_signature: signature };
    assert!(matches!(coordinator.verify_response(&response, &key), Err(PairingError::VerificationFailed)));
    assert!(coordinator.registered_nodes().is_empty());
}

#[test]
fn expired_challenges_are_refused_and_cleaned_up() {
    let cluster_id = new_id();
    let mut coordinator = PairingManager::new_coordinator(cluster_id).unwrap();
    let node = PairingManager::new_node(cluster_id).unwrap();
    let key = node.public_key();
    let request = PairingRequest {
        node_name: "n".to_string(),
        hostname: "h".to_string(),
        cluster_id,
        public_key: key.clone(),
        fingerprint: generate_fingerprint(&key),
    };
    let challenge = coordinator.generate_challenge(&request).unwrap();
    let signature = node.sign_challenge(&challenge.challenge).unwrap();
    let response = PairingResponse { node_id: challenge.node_id, challenge_response: challenge.challenge.clone(), challenge_signature: signature };
    let later = chrono::Utc::now().timestamp() + 10_000;
    assert!(matches!(coordinator.verify_response_at(&response, &key, later, later), Err(PairingError::ChallengeExpired)));

    let second = coordinator.generate_challenge(&request).unwrap();
    coordinator.cleanup_expired_challenges_at(later);
    let signature = node.sign_challenge(&second.challenge).unwrap();
    let response = PairingResponse { node_id: second.node_id, challenge_response: second.challenge.clone(), challenge_signature: signature };
    assert!(matches!(coordinator.verify_response(&response, &key), Err(PairingError::ChallengeNotFound)));
}

#[test]
fn certificates_expire_after_a_year() {
    let cluster_id = new_id();
    let mut coordinator = PairingManager::new_coordinator(cluster_id).unwrap();
    let node = PairingManager::new_node(cluster_id).unwrap();
    let certificate = pair(&mut coordinator, &node, cluster_id);
    assert_eq!(certificate.expires_at - certificate.issued_at, 365 * 24 * 3600);
    let key = coordinator.public_key();
    assert_eq!(coordinator.verify_certificate_at(&certificate, &key, certificate.expires_at), Ok(true));
    assert_eq!(coordinator.verify_certificate_at(&certificate, &key, certificate.expires_at + 1), Ok(false));
    let mut forged = certificate.clone();
    forged.node_id = new_id();
    assert_eq!(coordinator.verify_certificate_at(&forged, &key, forged.issued_at), Ok(false));
}

#[test]
fn fingerprint_is_first_eight_digest_bytes_in_hex() {
    // SHA-256 of "abc" starts with ba7816bf8f01cfea.
    assert_eq!(generate_fingerprint(b"abc"), "ba7816bf8f01cfea");
}

// ----- RDMA -----

#[test]
fn test_rdma_server_creation() {
    let server = RdmaServer::new("127.0.0.1:0".to_string());
    assert!(server.is_ok());
    if let Ok(server) = server {
        let stats = server.get_stats();
        assert_eq!(stats.active_connections, 0);
    }
}

#[test]
fn test_rdma_client_creation() {
    let client = RdmaClient::new("127.0.0.1:12345".to_string());
    assert!(client.is_ok());
}

#[test]
fn test_memory_region_registration() {
    let mut server = RdmaServer::new("127.0.0.1:0".to_string()).unwrap();
    let result = server.register_memory_region("test_region".to_string(), 0x1000, 4096);
    assert!(result.is_ok());
    let stats = server.get_stats();
    assert_eq!(stats.registered_memory_regions, 1);
}

#[test]
fn rdma_regions_are_keyed_by_id_and_connections_counted() {
    let mut server = RdmaServer::new("10.0.0.1:4791".to_string()).unwrap();
    server.register_memory_region("a".to_string(), 0x1000, 4096).unwrap();
    server.register_memory_region("a".to_string(), 0x2000, 8192).unwrap();
    server.register_memory_region("b".to_string(), 0x3000, 4096).unwrap();
    assert_eq!(server.get_stats().registered_memory_regions, 2);
    let (id, conn) = server.accept().unwrap();
    assert_eq!(conn.node_id, id);
    assert_eq!(conn.remote_addr, "10.0.0.1:4791");
    assert_eq!(conn.state, ConnectionState::Connected);
    server.accept().unwrap();
    assert_eq!(server.get_stats().active_connections, 2);
    assert_eq!(server.send_tensor(id, "t", 5_000_000), Ok(5000));
}

#[test]
fn rdma_client_needs_a_connection() {
    let mut client = RdmaClient::new("10.0.0.1:4791".to_string()).unwrap();
    assert_eq!(client.send_tensor("t", 4096), Err(RdmaError::NotConnected));
    assert_eq!(client.receive_tensor("t", 16), Err(RdmaError::NotConnected));
    let conn = client.connect().unwrap();
    assert_eq!(conn.remote_addr, "10.0.0.1:4791");
    assert_eq!(client.send_tensor("t", 4096), Ok(4));
    let (data, us) = client.receive_tensor("t", 2500).unwrap();
    assert_eq!(data, vec![0u8; 2500]);
    assert_eq!(us, 2);
}

// ----- observability -----

#[test]
fn test_log_context() {
    let ctx = LogContext::new("test_operation".to_string())
        .with_node_id("node-123".to_string())
        .with_session_id("session-456".to_string());
    assert_eq!(ctx.operation, "test_operation");
    assert_eq!(ctx.node_id, Some("node-123".to_string()));
    assert_eq!(ctx.session_id, Some("session-456".to_string()));
    assert_eq!(ctx.model_id, None);
    let ctx = ctx.with_model_id("llama".to_string());
    assert_eq!(ctx.model_id, Some("llama".to_string()));
}

#[test]
fn metrics_collector_names_its_service() {
    assert_eq!(MetricsCollector::new("test-service".to_string()).service_name, "test-service");
}

#[test]
fn test_tokenization() {
    let runtime = GgmlRuntime::new();
    let text = "Hello, world!";
    let result = runtime.tokenize(text);
    assert!(result.is_err());
    assert!(matches!(runtime.detokenize(&[1, 2, 3]), Err(GgmlError::TokenizerNotLoaded)));
}

#[test]
fn test_pairing_manager() {
    let cluster_id = new_id();
    let mut pairing_manager = PairingManager::new_node(cluster_id).unwrap();
    let request = PairingRequest {
        node_name: "test-node".to_string(),
        hostname: "test-host".to_string(),
        cluster_id,
        public_key: vec![1, 2, 3, 4],
        fingerprint: "test-fingerprint".to_string(),
    };
    let challenge = pairing_manager.generate_challenge(&request).unwrap();
    assert!(!challenge.challenge.is_empty());
    assert!(!challenge.coordinator_public_key.is_empty());
    assert_eq!(challenge.node_id, request.cluster_id);
}

#[test]
fn a_challenge_is_kept_for_its_lifetime() {
    let cluster_id = new_id();
    let mut coordinator = PairingManager::new_coordinator(cluster_id).unwrap();
    let node = PairingManager::new_node(cluster_id).unwrap();
    let key = node.public_key();
    let challenge = coordinator.generate_challenge_at(7, vec![9; 32], 1_000);
    assert_eq!(challenge.node_id, 7);
    let signature = node.sign_challenge(&challenge.challenge).unwrap();
    let response = PairingResponse { node_id: 7, challenge_response: challenge.challenge.clone(), challenge_signature: signature };
    let cert = coordinator.verify_response_at(&response, &key, 1_300, 1_300).unwrap();
    assert_eq!(cert.node_id, 7);
    let late = coordinator.generate_challenge_at(8, vec![9; 32], 1_000);
    let signature = node.sign_challenge(&late.challenge).unwrap();
    let response = PairingResponse { node_id: 8, challenge_response: late.challenge.clone(), challenge_signature: signature };
    assert!(matches!(coordinator.verify_response_at(&response, &key, 1_301, 1_301), Err(PairingError::ChallengeExpired)));
}
