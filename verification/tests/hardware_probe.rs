use sysinfo::{CpuExt, DiskExt, System, SystemExt};
use tensorgrid::hardware::{HardwareProbe, InterfaceRecord, ProbeError, WmiGpuRecord};
use tensorgrid::types::{
    CpuCapabilities, GpuVendor, MemoryCapabilities, NetworkCapabilities, Precision, RuntimeBackend,
    StorageCapabilities,
};

fn system() -> System {
    let mut sys = System::new_all();
    sys.refresh_all();
    sys
}

fn probe_cpu(sys: &System) -> Result<CpuCapabilities, ProbeError> {
    let first_mhz = sys.cpus().first().map(|c| c.frequency() as u32);
    // The target architecture is known to the program that hosts the
    // library; the tests run on x86-64.
    Ok(HardwareProbe::cpu_capabilities("x86_64".to_string(), sys.physical_core_count(), sys.cpus().len(), first_mhz, true))
}

fn probe_memory(sys: &System) -> Result<MemoryCapabilities, ProbeError> {
    Ok(HardwareProbe::memory_capabilities(sys.total_memory(), sys.available_memory()))
}

fn probe_storage(sys: &System) -> Result<StorageCapabilities, ProbeError> {
    let disks: Vec<(u64, u64)> = sys.disks().iter().map(|d| (d.total_space(), d.available_space())).collect();
    Ok(HardwareProbe::storage_capabilities(&disks))
}

#[test]
fn test_probe_cpu() {
    let sys = system();
    let cpu = probe_cpu(&sys).unwrap();
    assert!(cpu.cores > 0);
    assert!(cpu.threads > 0);
    assert!(!cpu.architecture.is_empty());
}

#[test]
fn test_probe_memory() {
    let sys = system();
    let memory = probe_memory(&sys).unwrap();
    assert!(memory.total_bytes > 0);
    assert!(memory.available_bytes > 0);
    assert!(memory.available_bytes <= memory.total_bytes);
}

#[test]
fn test_probe_all() {
    let sys = system();
    let capabilities = HardwareProbe::probe_all(
        probe_cpu(&sys),
        HardwareProbe::probe_gpus(Some(HardwareProbe::probe_nvidia_gpus().unwrap()), None),
        probe_memory(&sys),
        probe_storage(&sys),
        Ok(HardwareProbe::network_capabilities(Vec::new())),
        HardwareProbe::detect_supported_runtimes(false, false, false),
    )
    .unwrap();
    assert!(!capabilities.supported_runtimes.is_empty());
}

#[test]
fn probe_all_reports_the_first_failure() {
    let result = HardwareProbe::probe_all(
        Ok(HardwareProbe::cpu_capabilities("x86_64".to_string(), Some(4), 8, Some(3000), true)),
        Err(ProbeError::Failed("gpu".to_string())),
        Err(ProbeError::Failed("memory".to_string())),
        Ok(HardwareProbe::storage_capabilities(&vec![])),
        Ok(NetworkCapabilities { interfaces: vec![] }),
        vec![RuntimeBackend::CPU],
    );
    match result {
        Err(ProbeError::Failed(m)) => assert_eq!(m, "gpu"),
        Ok(_) => panic!("probing should have failed"),
    }
}

#[test]
fn cpu_capabilities_features_and_defaults() {
    let cpu = HardwareProbe::cpu_capabilities("x86_64".to_string(), None, 16, None, true);
    assert_eq!(cpu.cores, 1);
    assert_eq!(cpu.threads, 16);
    assert_eq!(cpu.frequency_mhz, 0);
    assert_eq!(cpu.numa_nodes, 1);
    assert_eq!(cpu.features, vec!["aes".to_string(), "avx2".to_string(), "sse4.2".to_string()]);
    let arm = HardwareProbe::cpu_capabilities("aarch64".to_string(), Some(8), 8, Some(2400), false);
    assert_eq!(arm.cores, 8);
    assert_eq!(arm.frequency_mhz, 2400);
    assert_eq!(arm.features, vec!["aes".to_string()]);
}

#[test]
fn memory_bandwidth_is_fixed() {
    let m = HardwareProbe::memory_capabilities(1000, 600);
    assert_eq!(m.total_bytes, 1000);
    assert_eq!(m.available_bytes, 600);
    assert_eq!(m.bandwidth_mbps, 25600);
}

#[test]
fn storage_sums_disks() {
    let s = HardwareProbe::storage_capabilities(&vec![(100, 40), (250, 10)]);
    assert_eq!(s.total_bytes, 350);
    assert_eq!(s.available_bytes, 50);
    assert_eq!(s.read_throughput_mbps, 3500);
    assert_eq!(s.write_throughput_mbps, 3000);
}

#[test]
fn network_skips_loopback() {
    let records = vec![
        InterfaceRecord { name: "eth0".to_string(), ip_address: "10.0.0.2".to_string(), mac_address: "aa:bb".to_string() },
        InterfaceRecord { name: "Loopback Pseudo-Interface".to_string(), ip_address: "127.0.0.1".to_string(), mac_address: String::new() },
        InterfaceRecord { name: "wlan0".to_string(), ip_address: "10.0.0.3".to_string(), mac_address: "cc:dd".to_string() },
    ];
    let n = HardwareProbe::network_capabilities(records);
    assert_eq!(n.interfaces.len(), 2);
    assert_eq!(n.interfaces[0].name, "eth0");
    assert_eq!(n.interfaces[1].name, "wlan0");
    assert_eq!(n.interfaces[1].bandwidth_mbps, 1000);
    assert!(!n.interfaces[0].supports_rdma);
}

#[test]
fn wmi_gpu_record() {
    let rec = WmiGpuRecord {
        name: Some("GeForce RTX".to_string()),
        adapter_compatibility: Some("NVIDIA".to_string()),
        adapter_ram: Some("4293918720".to_string()),
    };
    let g = HardwareProbe::wmi_gpu(2, &rec);
    assert_eq!(g.id, "gpu:2");
    assert_eq!(g.name, "GeForce RTX");
    assert_eq!(g.vendor, GpuVendor::Nvidia);
    assert_eq!(g.vram_bytes, 4293918720);
    assert!(g.supports_nvml);
    assert_eq!(g.supported_precisions, vec![Precision::Fp16, Precision::Fp32]);

    let blank = WmiGpuRecord { name: None, adapter_compatibility: Some("Advanced Micro Devices (AMD)".to_string()), adapter_ram: Some("n/a".to_string()) };
    let g = HardwareProbe::wmi_gpu(0, &blank);
    assert_eq!(g.name, "Unknown GPU");
    assert_eq!(g.vendor, GpuVendor::Amd);
    assert_eq!(g.vram_bytes, 0);
    assert!(!g.supports_nvml);
}

#[test]
fn gpus_from_both_sources() {
    let wmi = vec![HardwareProbe::wmi_gpu(0, &WmiGpuRecord { name: None, adapter_compatibility: None, adapter_ram: None })];
    let gpus = HardwareProbe::probe_gpus(Some(vec![]), Some(wmi)).unwrap();
    assert_eq!(gpus.len(), 1);
    assert_eq!(gpus[0].vendor, GpuVendor::Unknown);
    assert!(HardwareProbe::probe_gpus(None, None).unwrap().is_empty());
}

#[test]
fn supported_runtimes_order() {
    assert_eq!(
        HardwareProbe::detect_supported_runtimes(false, false, false),
        vec![RuntimeBackend::CPU, RuntimeBackend::GGML, RuntimeBackend::Vulkan]
    );
    assert_eq!(
        HardwareProbe::detect_supported_runtimes(true, true, true),
        vec![
            RuntimeBackend::CPU,
            RuntimeBackend::GGML,
            RuntimeBackend::CUDA,
            RuntimeBackend::ROCm,
            RuntimeBackend::MLX,
            RuntimeBackend::Vulkan
        ]
    );
}

#[test]
fn parse_decimal_numbers() {
    assert_eq!(tensorgrid::hardware::parse_u64("12345"), Some(12345));
    assert_eq!(tensorgrid::hardware::parse_u64("18446744073709551615"), Some(u64::MAX));
    assert_eq!(tensorgrid::hardware::parse_u64("18446744073709551616"), None);
    assert_eq!(tensorgrid::hardware::parse_u64(""), None);
    assert_eq!(tensorgrid::hardware::parse_u64("12a"), None);
    assert!(tensorgrid::hardware::contains_str("Intel(R) UHD", "Intel"));
    assert!(!tensorgrid::hardware::contains_str("Intel", "Intel(R)"));
}
