use tensorgrid::fine_tuning::{FineTuningConfig, FineTuningError, FineTuningService, JobStatus, TrainingAction};
use tensorgrid::model_registry::{ModelRegistry, RegistryError};
use tensorgrid::pipeline::{ExecutionRequest, PipelineError, PipelineExecutor, SessionStatus};
use tensorgrid::planner::{ModelMetadata, Planner, PlanningRequest, LOCAL_NODE};
use tensorgrid::scheduler::{RequestPriority, ScheduleError, ScheduleRequest, Scheduler, CPU_SHARE, RAM_SHARE, VRAM_SHARE};
use tensorgrid::types::{
    ClusterTopology, CpuCapabilities, ExecutionPlan, GpuCapabilities, GpuVendor, KvCachePlan, KvCachePolicy,
    LinkMeasurement, LogicalCluster, LogicalResources, MemoryCapabilities, NetworkCapabilities, NodeCapabilities,
    NodePermissions, NodeResources, NodeStatus, ParallelismStrategy, PerformanceEstimate, PhysicalNode, Precision,
    RuntimeBackend, StagePlan, StorageCapabilities,
};

const GIB: u64 = 1024 * 1024 * 1024;

fn new_id() -> u128 {
    uuid::Uuid::new_v4().as_u128()
}

fn link(latency_us: u32, bandwidth_mbps: u32, jitter_us: u32, loss: f32) -> LinkMeasurement {
    LinkMeasurement {
        from: new_id(),
        to: new_id(),
        transport: "tcp".to_string(),
        latency_us,
        bandwidth_mbps,
        jitter_us,
        packet_loss_bits: loss.to_bits(),
    }
}

fn node(status: NodeStatus, gpus: usize) -> PhysicalNode {
    let gpus: Vec<GpuCapabilities> = (0..gpus)
        .map(|i| GpuCapabilities {
            id: format!("gpu:{}", i),
            name: "GPU".to_string(),
            vendor: GpuVendor::Nvidia,
            vram_bytes: 8 * GIB,
            compute_capability: None,
            supports_peer_to_peer: false,
            supports_nvml: true,
            supported_precisions: vec![Precision::Fp16],
        })
        .collect();
    PhysicalNode {
        id: new_id(),
        name: "node".to_string(),
        hostname: "host".to_string(),
        cluster_id: new_id(),
        capabilities: NodeCapabilities {
            cpu: CpuCapabilities {
                architecture: "x86_64".to_string(),
                cores: 8,
                threads: 16,
                frequency_mhz: 3000,
                features: vec![],
                numa_nodes: 1,
            },
            gpus,
            memory: MemoryCapabilities { total_bytes: 32 * GIB, available_bytes: 32 * GIB, bandwidth_mbps: 25000 },
            storage: StorageCapabilities {
                total_bytes: 1024 * GIB,
                available_bytes: 1024 * GIB,
                read_throughput_mbps: 3500,
                write_throughput_mbps: 3000,
            },
            network: NetworkCapabilities { interfaces: vec![] },
            supported_runtimes: vec![RuntimeBackend::GGML],
        },
        resources: NodeResources {
            cpu_usage_percent_bits: 0,
            memory_used_bytes: 0,
            memory_committed_bytes: 0,
            gpu_usage: vec![],
            network_tx_mbps_bits: 0,
            network_rx_mbps_bits: 0,
            temperature_celsius_bits: None,
        },
        permissions: NodePermissions {
            max_cpu_percent: 80,
            max_cpu_threads: None,
            max_ram_bytes: 16 * GIB,
            gpu_enabled: true,
            max_vram_bytes: 8 * GIB,
            max_storage_bytes: 100 * GIB,
            allow_when_on_battery: false,
            pause_when_user_active: true,
            allowed_schedule: None,
        },
        status,
        last_heartbeat: 0,
        certificate_fingerprint: None,
    }
}

fn cluster(nodes: Vec<PhysicalNode>, links: Vec<LinkMeasurement>) -> LogicalCluster {
    LogicalCluster {
        id: new_id(),
        name: "test".to_string(),
        logical_resources: LogicalResources {
            cpu_compute_units_bits: 16.0f32.to_bits(),
            host_memory_bytes: 32 * GIB,
            device_memory_bytes: 8 * GIB,
            storage_bytes: 1024 * GIB,
            preferred_parallelism: ParallelismStrategy::Pipeline,
        },
        nodes,
        topology: ClusterTopology { nodes: vec![], links },
    }
}

fn plan(stages: Vec<StagePlan>) -> ExecutionPlan {
    ExecutionPlan {
        model_id: "test-model".to_string(),
        strategy: ParallelismStrategy::Pipeline,
        estimated: PerformanceEstimate {
            load_seconds_bits: 5.0f32.to_bits(),
            prompt_tokens_per_second_bits: 50.0f32.to_bits(),
            decode_tokens_per_second_bits: 15.0f32.to_bits(),
        },
        stages,
        kv_cache: KvCachePlan { policy: KvCachePolicy::StageLocal, reserved_bytes: 64 * 1024 * 1024 },
    }
}

fn stage(id: u32, layers: Vec<u32>) -> StagePlan {
    StagePlan { id, node_id: new_id(), device: "cpu:0".to_string(), layers, weight_bytes: 1024 * 1024 }
}

fn planning_request(layers: u32, strategy: Option<ParallelismStrategy>) -> PlanningRequest {
    PlanningRequest {
        model_id: "llama-2-7b".to_string(),
        model_metadata: ModelMetadata {
            parameter_count: 7_000_000_000,
            layer_count: layers,
            architecture: "llama2".to_string(),
            quantization: "q4_k_m".to_string(),
            estimated_weight_bytes: 4 * GIB,
        },
        context_length: 4096,
        batch_size: 1,
        preferred_strategy: strategy,
    }
}

// ----- planner -----

#[test]
fn test_planner_creation() {
    let planner = Planner::new();
    assert_eq!(planner.metrics.service_name, "planner");
}

#[test]
fn test_average_bandwidth() {
    let planner = Planner::new();
    let links = vec![link(100, 10000, 10, 0.0), link(150, 5000, 15, 0.1)];
    let avg = planner.calculate_average_bandwidth(&links);
    assert_eq!(avg, 7500);
}

#[test]
fn averages_of_no_links_are_defaults() {
    let planner = Planner::new();
    assert_eq!(planner.calculate_average_bandwidth(&vec![]), 1000);
    assert_eq!(planner.calculate_average_latency(&vec![]), 1000);
    assert_eq!(planner.calculate_average_latency(&vec![link(100, 1, 0, 0.0), link(151, 1, 0, 0.0)]), 125);
}

#[test]
fn pipeline_plan_covers_all_layers() {
    let planner = Planner::new();
    let c = cluster(vec![node(NodeStatus::Healthy, 0), node(NodeStatus::Offline, 0), node(NodeStatus::Healthy, 0)], vec![]);
    let outline = planner.create_plan(planning_request(32, Some(ParallelismStrategy::Pipeline)), &c).unwrap();
    assert_eq!(outline.model_id, "llama-2-7b");
    assert_eq!(outline.stages.len(), 2);
    assert_eq!(outline.stages[0].layers, (0..16).collect::<Vec<u32>>());
    assert_eq!(outline.stages[1].layers, (16..32).collect::<Vec<u32>>());
    assert_eq!(outline.stages[0].node_id, c.nodes[0].id);
    assert_eq!(outline.stages[1].node_id, c.nodes[2].id);
    assert_eq!(outline.stages[0].device, "cpu:0");
    assert_eq!(outline.stages[0].weight_bytes, 2 * GIB);
}

#[test]
fn uneven_layers_leave_the_last_stage_short() {
    let planner = Planner::new();
    let c = cluster(vec![node(NodeStatus::Healthy, 1), node(NodeStatus::Healthy, 1), node(NodeStatus::Healthy, 1)], vec![]);
    let outline = planner.create_plan(planning_request(10, Some(ParallelismStrategy::Pipeline)), &c).unwrap();
    let lens: Vec<usize> = outline.stages.iter().map(|s| s.layers.len()).collect();
    assert_eq!(lens, vec![4, 4, 2]);
    assert_eq!(outline.stages[0].device, "cuda:gpu:0");
    let all: Vec<u32> = outline.stages.iter().flat_map(|s| s.layers.clone()).collect();
    assert_eq!(all, (0..10).collect::<Vec<u32>>());
}

#[test]
fn planning_without_healthy_nodes_stays_local() {
    let planner = Planner::new();
    let c = cluster(vec![node(NodeStatus::Offline, 0)], vec![]);
    let outline = planner.create_plan(planning_request(32, None), &c).unwrap();
    assert_eq!(outline.stages.len(), 1);
    assert_eq!(outline.stages[0].node_id, LOCAL_NODE);
    assert_eq!(outline.stages[0].device, "cpu:0");
    assert_eq!(outline.stages[0].layers, (0..32).collect::<Vec<u32>>());
    assert_eq!(outline.stages[0].weight_bytes, 4 * GIB);
}

#[test]
fn test_planner_plan_generation() {
    let planner = Planner::new();
    let c = cluster(vec![], vec![]);
    let plan = planner.create_plan(planning_request(32, None), &c).unwrap();
    assert_eq!(plan.model_id, "llama-2-7b");
    assert!(!plan.stages.is_empty());
}

#[test]
fn stage_weights_split_proportionally() {
    assert_eq!(tensorgrid::planner::estimate_stage_weight(8, 4 * GIB, 32), GIB);
    assert_eq!(tensorgrid::planner::estimate_stage_weight(1, 10, 3), 3);
}

// ----- pipeline -----

#[test]
fn test_pipeline_executor() {
    let mut executor = PipelineExecutor::new();
    let session_id = new_id();
    let plan = plan(vec![stage(0, vec![0, 1, 2]), stage(1, vec![3, 4, 5])]);
    executor.initialize_session(session_id, plan).unwrap();

    let request = ExecutionRequest { session_id, input_tokens: vec![1, 2, 3], max_tokens: 10, temperature_bits: 0.7f32.to_bits() };
    let result = executor.execute(&request);
    assert!(result.is_ok());

    let result = result.unwrap();
    assert_eq!(result.session_id, session_id);
    assert!(!result.tokens.is_empty());
}

#[test]
fn lib_test_session_lifecycle() {
    let mut executor = PipelineExecutor::new();
    let session_id = new_id();
    executor.initialize_session(session_id, plan(vec![])).unwrap();

    executor.pause_session(session_id).unwrap();
    executor.resume_session(session_id).unwrap();
    executor.cancel_session(session_id).unwrap();

    let status = executor.get_session_status(session_id);
    assert!(status.is_err());
}

#[test]
fn api_tests_test_session_lifecycle() {
    let mut executor = PipelineExecutor::new();
    let session_id = new_id();
    executor.initialize_session(session_id, plan(vec![])).unwrap();

    executor.pause_session(session_id).unwrap();
    let status = executor.get_session_status(session_id).unwrap();
    assert_eq!(format!("{:?}", status), "Paused");

    executor.resume_session(session_id).unwrap();
    let status = executor.get_session_status(session_id).unwrap();
    assert_eq!(format!("{:?}", status), "Running");

    executor.cancel_session(session_id).unwrap();
    let status = executor.get_session_status(session_id);
    assert!(status.is_err());
}

#[test]
fn test_executor_stats() {
    let mut executor = PipelineExecutor::new();
    let stats = executor.get_stats();
    assert_eq!(stats.total_sessions, 0);
    assert_eq!(stats.running_sessions, 0);

    executor.initialize_session(new_id(), plan(vec![])).unwrap();

    let stats = executor.get_stats();
    assert_eq!(stats.total_sessions, 1);
}

#[test]
fn test_concurrent_sessions() {
    let mut executor = PipelineExecutor::new();
    let session_ids: Vec<u128> = (0..3).map(|_| new_id()).collect();
    for session_id in &session_ids {
        executor.initialize_session(*session_id, plan(vec![])).unwrap();
    }
    let stats = executor.get_stats();
    assert_eq!(stats.total_sessions, 3);
}

#[test]
fn decoding_counts_up_from_the_last_token_and_stops_at_two() {
    let mut executor = PipelineExecutor::new();
    let session_id = new_id();
    executor.initialize_session(session_id, plan(vec![stage(0, vec![0])])).unwrap();
    let request = ExecutionRequest { session_id, input_tokens: vec![1, 2, 3], max_tokens: 4, temperature_bits: 0 };
    assert_eq!(executor.execute(&request).unwrap().tokens, vec![4, 5, 6, 7]);
    let wraps = ExecutionRequest { session_id, input_tokens: vec![998], max_tokens: 10, temperature_bits: 0 };
    assert_eq!(executor.execute(&wraps).unwrap().tokens, vec![999, 0, 1, 2]);
    let stats = executor.get_stats();
    assert_eq!(stats.running_sessions, 1);
}

#[test]
fn paused_sessions_do_not_run() {
    let mut executor = PipelineExecutor::new();
    let session_id = new_id();
    executor.initialize_session(session_id, plan(vec![])).unwrap();
    executor.pause_session(session_id).unwrap();
    let request = ExecutionRequest { session_id, input_tokens: vec![1], max_tokens: 1, temperature_bits: 0 };
    match executor.execute(&request) {
        Err(PipelineError::SessionNotReady(m)) => assert_eq!(m, "Session status: Paused"),
        _ => panic!("expected SessionNotReady"),
    }
    let other = new_id();
    match executor.resume_session(other) {
        Err(PipelineError::SessionNotFound(id)) => assert_eq!(id, other),
        _ => panic!("expected SessionNotFound"),
    }
    executor.resume_session(session_id).unwrap();
    assert!(matches!(executor.get_session_status(session_id), Ok(SessionStatus::Running)));
    assert_eq!(
        executor.resume_session(session_id),
        Err(PipelineError::SessionNotReady("Cannot resume session in status: Running".to_string()))
    );
}

#[test]
fn prefill_delay_is_two_ms_per_token_up_to_100() {
    assert_eq!(tensorgrid::pipeline::prefill_delay_ms(3), 6);
    assert_eq!(tensorgrid::pipeline::prefill_delay_ms(80), 100);
}

// ----- scheduler -----

fn schedule_request(context_length: u32) -> ScheduleRequest {
    ScheduleRequest {
        session_id: new_id(),
        model_id: "test-model".to_string(),
        context_length,
        batch_size: 1,
        priority: RequestPriority::Normal,
    }
}

#[test]
fn test_scheduler() {
    let mut scheduler = Scheduler::new(cluster(vec![], vec![]));
    let request = schedule_request(2048);
    let result = scheduler.schedule(request, &vec![], 0);
    assert!(result.is_err());
}

#[test]
fn schedule_picks_best_healthy_nodes_and_release_gives_back() {
    let nodes = vec![
        node(NodeStatus::Healthy, 0),
        node(NodeStatus::Healthy, 1),
        node(NodeStatus::Draining, 1),
        node(NodeStatus::Healthy, 0),
        node(NodeStatus::Healthy, 0),
    ];
    let ids: Vec<u128> = nodes.iter().map(|n| n.id).collect();
    let mut scheduler = Scheduler::new(cluster(nodes, vec![]));
    let scores: Vec<u32> = vec![1.0f32.to_bits(), 5.0f32.to_bits(), 9.0f32.to_bits(), 3.0f32.to_bits(), 3.0f32.to_bits()];
    let request = schedule_request(4096);
    let sid = request.session_id;
    let session = scheduler.schedule(request, &scores, 7.5f32.to_bits()).unwrap();
    assert_eq!(session.session_id, sid);
    assert_eq!(session.assigned_nodes, vec![ids[1], ids[3], ids[4]]);
    assert_eq!(session.allocated_resources.len(), 3);
    assert_eq!(session.allocated_resources[0].cpu_percent, CPU_SHARE);
    assert_eq!(session.allocated_resources[0].ram_bytes, RAM_SHARE);
    assert_eq!(session.allocated_resources[0].vram_bytes, VRAM_SHARE);
    let stats = scheduler.get_stats();
    assert_eq!(stats.active_sessions, 1);
    assert_eq!(stats.total_allocated_cpu, 90);
    assert_eq!(stats.total_allocated_ram, 3 * RAM_SHARE);

    scheduler.release_session(sid).unwrap();
    let stats = scheduler.get_stats();
    assert_eq!(stats.active_sessions, 0);
    assert_eq!(stats.total_allocated_cpu, 0);
    assert_eq!(stats.total_allocated_ram, 0);
    assert_eq!(stats.total_allocated_vram, 0);
    assert!(matches!(scheduler.release_session(sid), Err(ScheduleError::SessionNotFound)));
}

#[test]
fn nodes_fill_up_after_three_sessions() {
    let nodes = vec![node(NodeStatus::Healthy, 0)];
    let id = nodes[0].id;
    let mut scheduler = Scheduler::new(cluster(nodes, vec![]));
    let scores = vec![1.0f32.to_bits()];
    for _ in 0..3 {
        scheduler.schedule(schedule_request(1024), &scores, 0).unwrap();
    }
    match scheduler.schedule(schedule_request(1024), &scores, 0) {
        Err(ScheduleError::InsufficientResources(n)) => assert_eq!(n, id),
        _ => panic!("expected InsufficientResources"),
    }
}

#[test]
fn admission_needs_memory_for_the_context() {
    let mut c = cluster(vec![node(NodeStatus::Healthy, 0)], vec![]);
    c.logical_resources.host_memory_bytes = 1024 * 1024;
    let scheduler = Scheduler::new(c.clone());
    assert!(!scheduler.check_admission(&schedule_request(1024)));
    assert!(scheduler.check_admission(&schedule_request(1023)));
    let mut scheduler = Scheduler::new(c);
    assert!(matches!(scheduler.schedule(schedule_request(4096), &vec![0], 0), Err(ScheduleError::AdmissionRejected)));
}

// ----- model registry -----

fn sample_model() -> Vec<u8> {
    fn push_string(buf: &mut Vec<u8>, s: &str) {
        buf.extend_from_slice(&(s.len() as u64).to_le_bytes());
        buf.extend_from_slice(s.as_bytes());
    }
    let mut buf = Vec::new();
    buf.extend_from_slice(&tensorgrid::gguf::GGUF_MAGIC.to_le_bytes());
    buf.extend_from_slice(&3u32.to_le_bytes());
    buf.extend_from_slice(&0u64.to_le_bytes());
    buf.extend_from_slice(&2u64.to_le_bytes());
    push_string(&mut buf, "general.architecture");
    buf.extend_from_slice(&8u32.to_le_bytes());
    push_string(&mut buf, "llama");
    push_string(&mut buf, "llama.block_count");
    buf.extend_from_slice(&4u32.to_le_bytes());
    buf.extend_from_slice(&32u32.to_le_bytes());
    buf
}

#[test]
fn test_model_registry() {
    let registry = ModelRegistry::new("/tmp/tensorgrid-cache".to_string());
    let models = registry.list_models();
    assert_eq!(models.len(), 0);
    let stats = registry.get_stats();
    assert_eq!(stats.total_models, 0);
}

#[test]
fn test_cache_path() {
    let registry = ModelRegistry::new("/tmp/tensorgrid-cache".to_string());
    let checksum = "abcdef1234567890";
    let path = registry.cache_path(checksum);
    assert!(path.ends_with("ab/abcdef1234567890"));
    assert_eq!(path, "/tmp/tensorgrid-cache/ab/abcdef1234567890");
}

#[test]
fn checksum_is_hex_sha256() {
    let registry = ModelRegistry::new("/cache".to_string());
    assert_eq!(
        registry.calculate_checksum(b"abc"),
        "ba7816bf8f01cfea414140de5dae2223b00361a396177a9cb410ff61f20015ad"
    );
}

#[test]
fn register_mark_and_unregister() {
    let mut registry = ModelRegistry::new("/cache".to_string());
    let data = sample_model();
    let meta = registry.register_model(&data, "Llama".to_string()).unwrap();
    let checksum = registry.calculate_checksum(&data);
    assert_eq!(meta.model_id, format!("llama-{}", &checksum[..16]));
    assert_eq!(meta.architecture, "llama");
    assert_eq!(meta.parameter_count, 32);
    assert_eq!(meta.context_length, 2048);
    assert_eq!(meta.quantization, "q4_k_m");
    assert_eq!(meta.file_size_bytes, data.len() as u64);
    assert_eq!(meta.file_path, registry.cache_path(&checksum));
    assert!(meta.cached_nodes.is_empty());

    let node = new_id();
    assert!(!registry.is_cached_on_node(&meta.model_id, node));
    registry.mark_cached(&meta.model_id, node).unwrap();
    registry.mark_cached(&meta.model_id, node).unwrap();
    assert!(registry.is_cached_on_node(&meta.model_id, node));
    assert_eq!(registry.get_model(&meta.model_id).unwrap().cached_nodes, vec![node]);
    assert_eq!(registry.get_models_on_node(node).len(), 1);
    assert_eq!(registry.get_stats().total_cache_nodes, 1);
    registry.unmark_cached(&meta.model_id, node).unwrap();
    assert!(!registry.is_cached_on_node(&meta.model_id, node));

    assert_eq!(registry.get_cached_path(&meta.model_id), Some(meta.file_path.clone()));
    assert_eq!(registry.get_cached_path(&meta.model_id), Some(registry.cache_path(&checksum)));
    assert_eq!(registry.get_cached_path("llama-0000"), None);
    assert_eq!(registry.unregister_model(&meta.model_id).unwrap(), meta.file_path);
    assert!(registry.get_model(&meta.model_id).is_none());
    assert!(matches!(registry.mark_cached(&meta.model_id, node), Err(RegistryError::ModelNotFound(_))));
}

#[test]
fn registering_garbage_fails() {
    let mut registry = ModelRegistry::new("/cache".to_string());
    assert!(matches!(registry.register_model(b"not a model", "x".to_string()), Err(RegistryError::Parse(_))));
    assert_eq!(registry.list_models().len(), 0);
}

// ----- fine-tuning -----

fn tuning_config(base_model: &str) -> FineTuningConfig {
    FineTuningConfig {
        base_model: base_model.to_string(),
        dataset_path: "/tmp/dataset.jsonl".to_string(),
        output_path: "/tmp/output.gguf".to_string(),
        epochs: 3,
        batch_size: 32,
        learning_rate_bits: 0.0001f32.to_bits(),
        lora_rank: Some(8),
        lora_alpha_bits: Some(16.0f32.to_bits()),
    }
}

#[test]
fn test_create_job() {
    let mut service = FineTuningService::new(ModelRegistry::new("/cache".to_string()));
    let result = service.create_job(tuning_config("test-model"), true);
    assert!(result.is_err());
}

#[test]
fn test_list_jobs() {
    let service = FineTuningService::new(ModelRegistry::new("/cache".to_string()));
    let jobs = service.list_jobs();
    assert_eq!(jobs.len(), 0);
}

#[test]
fn job_lifecycle() {
    let mut registry = ModelRegistry::new("/cache".to_string());
    let meta = registry.register_model(&sample_model(), "Llama".to_string()).unwrap();
    let mut service = FineTuningService::new(registry);
    match service.create_job(tuning_config(&meta.model_id), false) {
        Err(FineTuningError::DatasetNotFound(p)) => assert_eq!(p, "/tmp/dataset.jsonl"),
        _ => panic!("expected DatasetNotFound"),
    }
    let id = service.create_job(tuning_config(&meta.model_id), true).unwrap();
    assert_eq!(service.get_job(id).unwrap().status, JobStatus::Pending);
    assert!(matches!(service.pause_job(id), Err(FineTuningError::InvalidState(_))));
    service.start_job(id).unwrap();
    assert_eq!(service.training_check(id), TrainingAction::Train);
    service.pause_job(id).unwrap();
    assert_eq!(service.training_check(id), TrainingAction::Wait);
    assert_eq!(service.paused_check(id), TrainingAction::Wait);
    service.resume_job(id).unwrap();
    assert_eq!(service.paused_check(id), TrainingAction::Train);
    service.record_epoch(id, 1, 33.3f32.to_bits(), 1.5f32.to_bits());
    assert_eq!(service.get_job(id).unwrap().epoch, 1);
    service.cancel_job(id).unwrap();
    assert_eq!(service.training_check(id), TrainingAction::Stop);
    service.complete_training(id);
    assert_eq!(service.get_job(id).unwrap().status, JobStatus::Cancelled);
    match service.cancel_job(id) {
        Err(FineTuningError::InvalidState(m)) => assert_eq!(m, "Cannot cancel job in Cancelled state"),
        _ => panic!("expected InvalidState"),
    }
    assert_eq!(service.get_stats().total_jobs, 1);
    service.delete_job(id).unwrap();
    assert!(matches!(service.get_job(id), Err(FineTuningError::JobNotFound(_))));
}

#[test]
fn a_running_job_completes() {
    let mut registry = ModelRegistry::new("/cache".to_string());
    let meta = registry.register_model(&sample_model(), "Llama".to_string()).unwrap();
    let mut service = FineTuningService::new(registry);
    let id = service.create_job(tuning_config(&meta.model_id), true).unwrap();
    service.start_job(id).unwrap();
    service.pause_job(id).unwrap();
    service.complete_training(id);
    assert_eq!(service.get_job(id).unwrap().status, JobStatus::Paused);
    service.resume_job(id).unwrap();
    service.complete_training(id);
    let job = service.get_job(id).unwrap();
    assert_eq!(job.status, JobStatus::Completed);
    assert!(job.completed_at.is_some());
}

#[test]
fn releasing_a_session_restores_the_totals() {
    let nodes = vec![node(NodeStatus::Healthy, 0), node(NodeStatus::Healthy, 0)];
    let mut scheduler = Scheduler::new(cluster(nodes, vec![]));
    let scores: Vec<u32> = vec![2.0f32.to_bits(), 1.0f32.to_bits()];
    scheduler.schedule(schedule_request(1024), &scores, 1.0f32.to_bits()).unwrap();
    let before = scheduler.get_stats();
    let second = schedule_request(1024);
    let sid = second.session_id;
    scheduler.schedule(second, &scores, 1.0f32.to_bits()).unwrap();
    assert_eq!(scheduler.get_stats().total_allocated_cpu, before.total_allocated_cpu + 2 * CPU_SHARE as u64);
    scheduler.release_session(sid).unwrap();
    let after = scheduler.get_stats();
    assert_eq!(after.active_sessions, before.active_sessions);
    assert_eq!(after.total_allocated_cpu, before.total_allocated_cpu);
    assert_eq!(after.total_allocated_ram, before.total_allocated_ram);
    assert_eq!(after.total_allocated_vram, before.total_allocated_vram);
}

#[test]
fn timed_steps_record_their_time() {
    let mut executor = PipelineExecutor::new();
    let session_id = new_id();
    executor.initialize_session(session_id, plan(vec![stage(0, vec![0, 1])])).unwrap();
    let request = ExecutionRequest { session_id, input_tokens: vec![1, 2, 3], max_tokens: 4, temperature_bits: 0.7f32.to_bits() };
    let result = executor.execute_at(&request, 1_234).unwrap();
    assert_eq!(result.session_id, session_id);
    assert!(matches!(executor.get_session_status(session_id), Ok(SessionStatus::Running)));

    let mut registry = ModelRegistry::new("/cache".to_string());
    let meta = registry.register_model(&sample_model(), "Llama".to_string()).unwrap();
    let mut service = FineTuningService::new(registry);
    let id = service.create_job(tuning_config(&meta.model_id), true).unwrap();
    service.start_job_at(id, 5_000).unwrap();
    assert_eq!(service.get_job(id).unwrap().started_at, Some(5_000));
    service.complete_training_at(id, 9_000);
    let job = service.get_job(id).unwrap();
    assert_eq!(job.status, JobStatus::Completed);
    assert_eq!(job.completed_at, Some(9_000));
}

#[test]
fn registry_and_jobs_record_given_times() {
    let mut registry = ModelRegistry::new("/cache".to_string());
    let meta = registry.register_model_at(&sample_model(), "Llama".to_string(), 100, 200).unwrap();
    assert_eq!(meta.registered_at, 100);
    assert_eq!(meta.last_accessed, 200);
    let seen = registry.get_model_at(&meta.model_id, 700).unwrap();
    assert_eq!(seen.registered_at, 100);
    assert_eq!(seen.last_accessed, 700);
    assert!(registry.get_model_at("llama-0000", 800).is_none());

    let mut service = FineTuningService::new(registry);
    let id = new_id();
    assert_eq!(service.create_job_at(tuning_config(&meta.model_id), true, id, 3_000).unwrap(), id);
    let job = service.get_job(id).unwrap();
    assert_eq!(job.created_at, 3_000);
    assert_eq!(job.status, JobStatus::Pending);
    assert_eq!(job.started_at, None);
    assert!(matches!(
        service.create_job_at(tuning_config("missing"), true, new_id(), 3_000),
        Err(FineTuningError::ModelNotFound(_))
    ));
}

#[test]
fn a_second_release_is_refused() {
    let nodes = vec![node(NodeStatus::Healthy, 0), node(NodeStatus::Healthy, 0)];
    let mut scheduler = Scheduler::new(cluster(nodes, vec![]));
    let scores: Vec<u32> = vec![2.0f32.to_bits(), 1.0f32.to_bits()];
    let before = scheduler.get_stats();
    let request = schedule_request(1024);
    let sid = request.session_id;
    scheduler.schedule(request, &scores, 1.0f32.to_bits()).unwrap();
    assert_eq!(scheduler.get_stats().active_sessions, 1);
    scheduler.release_session(sid).unwrap();
    let after = scheduler.get_stats();
    assert_eq!(after.active_sessions, before.active_sessions);
    assert_eq!(after.total_allocated_cpu, before.total_allocated_cpu);
    assert_eq!(after.total_allocated_ram, before.total_allocated_ram);
    assert_eq!(after.total_allocated_vram, before.total_allocated_vram);
    assert!(matches!(scheduler.release_session(sid), Err(ScheduleError::SessionNotFound)));
    assert_eq!(scheduler.get_stats().active_sessions, 0);
}

#[test]
fn an_uninterrupted_run_completes_at_its_last_epoch() {
    let mut registry = ModelRegistry::new("/cache".to_string());
    let meta = registry.register_model(&sample_model(), "Llama".to_string()).unwrap();
    let mut service = FineTuningService::new(registry);
    let id = service.create_job(tuning_config(&meta.model_id), true).unwrap();
    service.start_job_at(id, 1_000).unwrap();
    for epoch in 1..=3u32 {
        assert_eq!(service.training_check(id), TrainingAction::Train);
        service.record_epoch(id, epoch, (epoch as f32 * 33.3).to_bits(), (1.0f32 / epoch as f32).to_bits());
        assert_eq!(service.get_job(id).unwrap().status, JobStatus::Running);
    }
    service.complete_training_at(id, 4_000);
    let job = service.get_job(id).unwrap();
    assert_eq!(job.status, JobStatus::Completed);
    assert_eq!(job.epoch, 3);
    assert_eq!(job.total_epochs, 3);
    assert_eq!(f32::from_bits(job.progress_bits), 100.0);
    assert_eq!(job.completed_at, Some(4_000));
}
