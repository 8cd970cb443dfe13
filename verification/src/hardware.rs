//! Hardware capabilities of a node, assembled from what the system reports:
//! CPU, GPUs, memory, storage, network interfaces and the runtime backends
//! the node can run.

use vstd::prelude::*;
use crate::text::{decimal, u64_to_decimal};
use crate::types::{
    CpuCapabilities, GpuCapabilities, GpuVendor, MemoryCapabilities, NetworkCapabilities,
    NetworkInterface, NodeCapabilities, Precision, RuntimeBackend, StorageCapabilities,
};

verus! {

/// A probe that failed, with the reason the system gave.
#[derive(Debug, Clone, PartialEq, Eq)]
pub enum ProbeError {
    Failed(String),
}

/// One GPU as the Windows management interface reports it: its `Name`,
/// `AdapterCompatibility` and `AdapterRAM` properties, when present.
#[derive(Debug, Clone)]
pub struct WmiGpuRecord {
    pub name: Option<String>,
    pub adapter_compatibility: Option<String>,
    pub adapter_ram: Option<String>,
}

/// A network interface as the system reports it.
#[derive(Debug, Clone)]
pub struct InterfaceRecord {
    pub name: String,
    pub ip_address: String,
    pub mac_address: String,
}

/// `needle` occurs in `hay`.
pub open spec fn has_substring(hay: Seq<char>, needle: Seq<char>) -> bool {
    exists|i: int| 0 <= i && i + needle.len() <= hay.len() && #[trigger] hay.subrange(i, i + needle.len()) == needle
}

pub open spec fn is_digit(c: char) -> bool {
    '0' <= c && c <= '9'
}

pub open spec fn all_digits(s: Seq<char>) -> bool {
    forall|i: int| 0 <= i < s.len() ==> is_digit(#[trigger] s[i])
}

/// The value of a string of decimal digits.
pub open spec fn digits_value(s: Seq<char>) -> nat
    decreases s.len(),
{
    if s.len() == 0 {
        0
    } else {
        digits_value(s.drop_last()) * 10 + ((s.last() as u32) - 48) as nat
    }
}

/// The digits `u64::from_str` reads: all of the text, or all of it after one
/// leading `+`.
pub open spec fn unsigned_digits(s: Seq<char>) -> Seq<char> {
    if s.len() > 0 && s[0] == '+' {
        s.drop_first()
    } else {
        s
    }
}

/// `u64::from_str`: one or more decimal digits, optionally after a `+`,
/// whose value fits in a `u64`.
pub open spec fn parse_u64_spec(s: Seq<char>) -> Option<u64> {
    let d = unsigned_digits(s);
    if d.len() > 0 && all_digits(d) && digits_value(d) <= u64::MAX {
        Some(digits_value(d) as u64)
    } else {
        None
    }
}

pub open spec fn vendor_of(compat: Seq<char>) -> GpuVendor {
    if has_substring(compat, "NVIDIA"@) {
        GpuVendor::Nvidia
    } else if has_substring(compat, "AMD"@) || has_substring(compat, "ATI"@) {
        GpuVendor::Amd
    } else if has_substring(compat, "Intel"@) {
        GpuVendor::Intel
    } else {
        GpuVendor::Unknown
    }
}

/// The backends a node supports: CPU and GGML always, then CUDA, ROCm and
/// MLX as available, then Vulkan.
pub open spec fn runtimes_for(cuda: bool, rocm: bool, apple_silicon: bool) -> Seq<RuntimeBackend> {
    seq![RuntimeBackend::CPU, RuntimeBackend::GGML]
        + (if cuda { seq![RuntimeBackend::CUDA] } else { Seq::empty() })
        + (if rocm { seq![RuntimeBackend::ROCm] } else { Seq::empty() })
        + (if apple_silicon { seq![RuntimeBackend::MLX] } else { Seq::empty() })
        + seq![RuntimeBackend::Vulkan]
}

pub open spec fn disk_total(disks: Seq<(u64, u64)>) -> int
    decreases disks.len(),
{
    if disks.len() == 0 {
        0
    } else {
        disk_total(disks.drop_last()) + disks.last().0
    }
}

pub open spec fn disk_available(disks: Seq<(u64, u64)>) -> int
    decreases disks.len(),
{
    if disks.len() == 0 {
        0
    } else {
        disk_available(disks.drop_last()) + disks.last().1
    }
}

/// The interfaces that are not loopback ones, in order.
pub open spec fn non_loopback(s: Seq<InterfaceRecord>) -> Seq<InterfaceRecord>
    decreases s.len(),
{
    if s.len() == 0 {
        Seq::empty()
    } else {
        let r = non_loopback(s.drop_last());
        if has_substring(s.last().name@, "Loopback"@) {
            r
        } else {
            r.push(s.last())
        }
    }
}

/// Whether `needle` occurs in `hay`.
pub fn contains_str(hay: &str, needle: &str) -> (r: bool)
    ensures
        r == has_substring(hay@, needle@),
{
    let n = hay.unicode_len();
    let m = needle.unicode_len();
    if m > n {
        proof {
            assert forall|i: int| 0 <= i && i + needle@.len() <= hay@.len() implies #[trigger] hay@.subrange(i, i + needle@.len()) != needle@ by {
            }
        }
        return false;
    }
    let mut i: usize = 0;
    while i <= n - m
        invariant
            n == hay@.len(),
            m == needle@.len(),
            m <= n,
            i <= n - m + 1,
            forall|k: int| 0 <= k < i ==> #[trigger] hay@.subrange(k, k + m) != needle@,
        decreases n - m + 1 - i,
    {
        let mut j: usize = 0;
        let mut same = true;
        while j < m
            invariant
                n == hay@.len(),
                m == needle@.len(),
                i + m <= n,
                j <= m,
                same == (forall|q: int| 0 <= q < j ==> hay@[i + q] == needle@[q]),
            decreases m - j,
        {
            if hay.get_char(i + j) != needle.get_char(j) {
                same = false;
            }
            j = j + 1;
        }
        if same {
            assert(hay@.subrange(i as int, i + m) =~= needle@);
            return true;
        }
        assert(hay@.subrange(i as int, i + m) != needle@) by {
            let q = choose|q: int| 0 <= q < m && hay@[i + q] != needle@[q];
            assert(hay@.subrange(i as int, i + m)[q] == hay@[i + q]);
        }
        i = i + 1;
    }
    assert forall|k: int| 0 <= k && k + needle@.len() <= hay@.len() implies #[trigger] hay@.subrange(k, k + needle@.len()) != needle@ by {
        assert(k < i);
    }
    false
}

proof fn lemma_digits_value_bound(s: Seq<char>, k: int)
    requires
        0 <= k <= s.len(),
        all_digits(s),
    ensures
        digits_value(s.take(k)) <= digits_value(s),
    decreases s.len() - k,
{
    if k < s.len() {
        lemma_digits_value_bound(s, k + 1);
        assert(s.take(k + 1).drop_last() =~= s.take(k));
    } else {
        assert(s.take(k) =~= s);
    }
}

/// `u64::from_str`.
pub fn parse_u64(s: &str) -> (r: Option<u64>)
    ensures
        r == parse_u64_spec(s@),
{
    let n = s.unicode_len();
    let start: usize = if n > 0 && s.get_char(0) == '+' { 1 } else { 0 };
    let ghost d = unsigned_digits(s@);
    assert(d =~= s@.subrange(start as int, n as int));
    if start == n {
        return None;
    }
    let mut value: u64 = 0;
    let mut i: usize = start;
    while i < n
        invariant
            start <= i <= n,
            start < n,
            n == s@.len(),
            d == unsigned_digits(s@),
            d == s@.subrange(start as int, n as int),
            all_digits(d.take(i - start)),
            value == digits_value(d.take(i - start)),
        decreases n - i,
    {
        let c = s.get_char(i);
        assert(d.take(i - start + 1).drop_last() =~= d.take(i - start));
        assert(d.take(i - start + 1).last() == c);
        if c < '0' || c > '9' {
            assert(!all_digits(d)) by {
                assert(d[i - start] == c);
            }
            return None;
        }
        let digit = (c as u32 - 48) as u64;
        if value > (u64::MAX - digit) / 10 {
            proof {
                assert(digits_value(d.take(i - start + 1)) == value * 10 + digit);
                assert(value * 10 + digit > u64::MAX) by (nonlinear_arith)
                    requires value > (u64::MAX - digit) / 10, digit <= 9;
                assert(all_digits(d.take(i - start + 1)));
                if all_digits(d) {
                    lemma_digits_value_bound(d, i - start + 1);
                }
            }
            return None;
        }
        assert(value * 10 + digit <= u64::MAX) by (nonlinear_arith)
            requires value <= (u64::MAX - digit) / 10, digit <= 9;
        value = value * 10 + digit;
        assert(all_digits(d.take(i - start + 1)));
        i = i + 1;
    }
    assert(d.take(n - start) =~= d);
    Some(value)
}

/// The hardware prober.
pub struct HardwareProbe;

impl HardwareProbe {
    /// The capabilities of a node from the results of each probe; the first
    /// failed probe, in the order CPU, GPUs, memory, storage, network, fails
    /// the whole.
    pub fn probe_all(
        cpu: Result<CpuCapabilities, ProbeError>,
        gpus: Result<Vec<GpuCapabilities>, ProbeError>,
        memory: Result<MemoryCapabilities, ProbeError>,
        storage: Result<StorageCapabilities, ProbeError>,
        network: Result<NetworkCapabilities, ProbeError>,
        supported_runtimes: Vec<RuntimeBackend>,
    ) -> (r: Result<NodeCapabilities, ProbeError>)
        ensures
            cpu is Err ==> r == Err::<NodeCapabilities, ProbeError>(cpu->Err_0),
            cpu is Ok && gpus is Err ==> r == Err::<NodeCapabilities, ProbeError>(gpus->Err_0),
            cpu is Ok && gpus is Ok && memory is Err ==> r == Err::<NodeCapabilities, ProbeError>(memory->Err_0),
            cpu is Ok && gpus is Ok && memory is Ok && storage is Err ==> r == Err::<NodeCapabilities, ProbeError>(storage->Err_0),
            cpu is Ok && gpus is Ok && memory is Ok && storage is Ok && network is Err ==> r == Err::<NodeCapabilities, ProbeError>(network->Err_0),
            cpu is Ok && gpus is Ok && memory is Ok && storage is Ok && network is Ok ==> r == Ok::<NodeCapabilities, ProbeError>(NodeCapabilities {
                cpu: cpu->Ok_0,
                gpus: gpus->Ok_0,
                memory: memory->Ok_0,
                storage: storage->Ok_0,
                network: network->Ok_0,
                supported_runtimes,
            }),
    {
        let cpu = match cpu {
            Ok(c) => c,
            Err(e) => return Err(e),
        };
        let gpus = match gpus {
            Ok(g) => g,
            Err(e) => return Err(e),
        };
        let memory = match memory {
            Ok(m) => m,
            Err(e) => return Err(e),
        };
        let storage = match storage {
            Ok(s) => s,
            Err(e) => return Err(e),
        };
        let network = match network {
            Ok(n) => n,
            Err(e) => return Err(e),
        };
        Ok(NodeCapabilities { cpu, gpus, memory, storage, network, supported_runtimes })
    }

    /// CPU capabilities from what the system reports: the physical core count
    /// (1 when unknown), the logical CPUs and the first CPU's frequency (0 when
    /// unknown). The features are `aes`, plus `avx2` and `sse4.2` on x86-64;
    /// one NUMA node is assumed.
    pub fn cpu_capabilities(
        architecture: String,
        physical_cores: Option<usize>,
        logical_cpus: usize,
        first_cpu_mhz: Option<u32>,
        x86_64: bool,
    ) -> (r: CpuCapabilities)
        ensures
            r.architecture == architecture,
            r.cores == (match physical_cores { Some(c) => c, None => 1usize }) as u32,
            r.threads == logical_cpus as u32,
            r.frequency_mhz == (match first_cpu_mhz { Some(f) => f, None => 0u32 }),
            r.numa_nodes == 1,
            r.features@.len() == (if x86_64 { 3int } else { 1int }),
            r.features@[0]@ == "aes"@,
            x86_64 ==> r.features@[1]@ == "avx2"@ && r.features@[2]@ == "sse4.2"@,
    {
        let cores = match physical_cores {
            Some(c) => c,
            None => 1,
        };
        let frequency_mhz = match first_cpu_mhz {
            Some(f) => f,
            None => 0,
        };
        let mut features: Vec<String> = Vec::new();
        features.push(String::from_str("aes"));
        if x86_64 {
            features.push(String::from_str("avx2"));
            features.push(String::from_str("sse4.2"));
        }
        CpuCapabilities {
            architecture,
            cores: cores as u32,
            threads: logical_cpus as u32,
            frequency_mhz,
            features,
            numa_nodes: 1,
        }
    }

    /// Memory capabilities; the bandwidth is taken as 25600 MB/s.
    pub fn memory_capabilities(total_bytes: u64, available_bytes: u64) -> (r: MemoryCapabilities)
        ensures
            r.total_bytes == total_bytes,
            r.available_bytes == available_bytes,
            r.bandwidth_mbps == 25600,
    {
        MemoryCapabilities { total_bytes, available_bytes, bandwidth_mbps: 25600 }
    }

    /// Storage capabilities from each disk's total and available space; the
    /// throughput is taken as 3500 MB/s read, 3000 MB/s write.
    pub fn storage_capabilities(disks: &Vec<(u64, u64)>) -> (r: StorageCapabilities)
        requires
            disk_total(disks@) <= u64::MAX,
            disk_available(disks@) <= u64::MAX,
        ensures
            r.total_bytes == disk_total(disks@),
            r.available_bytes == disk_available(disks@),
            r.read_throughput_mbps == 3500,
            r.write_throughput_mbps == 3000,
    {
        let mut total: u64 = 0;
        let mut available: u64 = 0;
        let mut i: usize = 0;
        while i < disks.len()
            invariant
                i <= disks@.len(),
                disk_total(disks@) <= u64::MAX,
                disk_available(disks@) <= u64::MAX,
                total == disk_total(disks@.take(i as int)),
                available == disk_available(disks@.take(i as int)),
            decreases disks@.len() - i,
        {
            assert(disks@.take(i + 1).drop_last() =~= disks@.take(i as int));
            proof {
                lemma_disk_prefix(disks@, i + 1);
            }
            total = total + disks[i].0;
            available = available + disks[i].1;
            i = i + 1;
        }
        assert(disks@.take(i as int) =~= disks@);
        StorageCapabilities { total_bytes: total, available_bytes: available, read_throughput_mbps: 3500, write_throughput_mbps: 3000 }
    }

    /// Network capabilities: the interfaces whose name does not contain
    /// `Loopback`, each taken as 1 Gbps without RDMA.
    pub fn network_capabilities(interfaces: Vec<InterfaceRecord>) -> (r: NetworkCapabilities)
        ensures
            r.interfaces@.len() == non_loopback(interfaces@).len(),
            forall|k: int| 0 <= k < r.interfaces@.len() ==> {
                let i = #[trigger] r.interfaces@[k];
                let s = non_loopback(interfaces@)[k];
                &&& i.name@ == s.name@
                &&& i.ip_address@ == s.ip_address@
                &&& i.mac_address@ == s.mac_address@
                &&& i.bandwidth_mbps == 1000
                &&& !i.supports_rdma
            },
    {
        let mut out: Vec<NetworkInterface> = Vec::new();
        let mut i: usize = 0;
        while i < interfaces.len()
            invariant
                i <= interfaces@.len(),
                out@.len() == non_loopback(interfaces@.take(i as int)).len(),
                forall|k: int| 0 <= k < out@.len() ==> {
                    let o = #[trigger] out@[k];
                    let s = non_loopback(interfaces@.take(i as int))[k];
                    &&& o.name@ == s.name@
                    &&& o.ip_address@ == s.ip_address@
                    &&& o.mac_address@ == s.mac_address@
                    &&& o.bandwidth_mbps == 1000
                    &&& !o.supports_rdma
                },
            decreases interfaces@.len() - i,
        {
            assert(interfaces@.take(i + 1).drop_last() =~= interfaces@.take(i as int));
            let rec = &interfaces[i];
            if !contains_str(rec.name.as_str(), "Loopback") {
                out.push(NetworkInterface {
                    name: rec.name.clone(),
                    ip_address: rec.ip_address.clone(),
                    mac_address: rec.mac_address.clone(),
                    bandwidth_mbps: 1000,
                    supports_rdma: false,
                });
            }
            i = i + 1;
        }
        assert(interfaces@.take(i as int) =~= interfaces@);
        NetworkCapabilities { interfaces: out }
    }

    /// The GPUs a vendor library reports. No vendor library is linked, so
    /// there are none.
    pub fn probe_nvidia_gpus() -> (r: Result<Vec<GpuCapabilities>, ProbeError>)
        ensures
            r matches Ok(g) && g@.len() == 0,
    {
        Ok(Vec::new())
    }

    /// The GPUs found: those of the vendor library, then those of the Windows
    /// management interface, each source only when it answered.
    pub fn probe_gpus(
        nvidia: Option<Vec<GpuCapabilities>>,
        wmi: Option<Vec<GpuCapabilities>>,
    ) -> (r: Result<Vec<GpuCapabilities>, ProbeError>)
        ensures
            r matches Ok(g) && g@ == (match nvidia { Some(v) => v@, None => Seq::empty() }) + (match wmi { Some(v) => v@, None => Seq::empty() }),
    {
        let mut gpus: Vec<GpuCapabilities> = Vec::new();
        if let Some(mut v) = nvidia {
            gpus.append(&mut v);
        }
        if let Some(mut v) = wmi {
            gpus.append(&mut v);
        }
        Ok(gpus)
    }

    /// The `index`-th GPU of the Windows management interface: `gpu:<index>`,
    /// named `Unknown GPU` when unnamed; the vendor is read from the adapter
    /// compatibility text, the memory from the adapter RAM (0 when missing or
    /// not a number).
    pub fn wmi_gpu(index: usize, record: &WmiGpuRecord) -> (r: GpuCapabilities)
        ensures
            r.id@ == seq!['g', 'p', 'u', ':'] + decimal(index as nat),
            r.name@ == (match record.name { Some(n) => n@, None => "Unknown GPU"@ }),
            r.vendor == vendor_of(match record.adapter_compatibility { Some(c) => c@, None => "Unknown"@ }),
            r.vram_bytes == (match record.adapter_ram {
                Some(s) => match parse_u64_spec(s@) {
                    Some(v) => v,
                    None => 0u64,
                },
                None => 0u64,
            }),
            r.compute_capability is None,
            !r.supports_peer_to_peer,
            r.supports_nvml == (r.vendor == GpuVendor::Nvidia),
            r.supported_precisions@ == seq![Precision::Fp16, Precision::Fp32],
    {
        let name = match &record.name {
            Some(n) => n.clone(),
            None => String::from_str("Unknown GPU"),
        };
        let compat = match &record.adapter_compatibility {
            Some(c) => c.clone(),
            None => String::from_str("Unknown"),
        };
        let vendor = if contains_str(compat.as_str(), "NVIDIA") {
            GpuVendor::Nvidia
        } else if contains_str(compat.as_str(), "AMD") || contains_str(compat.as_str(), "ATI") {
            GpuVendor::Amd
        } else if contains_str(compat.as_str(), "Intel") {
            GpuVendor::Intel
        } else {
            GpuVendor::Unknown
        };
        let vram_bytes = match &record.adapter_ram {
            Some(s) => match parse_u64(s.as_str()) {
                Some(v) => v,
                None => 0,
            },
            None => 0,
        };
        let mut id = String::from_str("gpu:");
        let digits = u64_to_decimal(index as u64);
        id.append(digits.as_str());
        proof {
            reveal_strlit("gpu:");
        }
        let mut precisions: Vec<Precision> = Vec::new();
        precisions.push(Precision::Fp16);
        precisions.push(Precision::Fp32);
        GpuCapabilities {
            id,
            name,
            vendor,
            vram_bytes,
            compute_capability: None,
            supports_peer_to_peer: false,
            supports_nvml: vendor == GpuVendor::Nvidia,
            supported_precisions: precisions,
        }
    }

    /// The runtime backends available: CPU and GGML always, CUDA, ROCm and
    /// MLX when present, and Vulkan.
    pub fn detect_supported_runtimes(cuda: bool, rocm: bool, apple_silicon: bool) -> (r: Vec<RuntimeBackend>)
        ensures
            r@ == runtimes_for(cuda, rocm, apple_silicon),
    {
        let mut runtimes: Vec<RuntimeBackend> = Vec::new();
        runtimes.push(RuntimeBackend::CPU);
        runtimes.push(RuntimeBackend::GGML);
        if cuda {
            runtimes.push(RuntimeBackend::CUDA);
        }
        if rocm {
            runtimes.push(RuntimeBackend::ROCm);
        }
        if apple_silicon {
            runtimes.push(RuntimeBackend::MLX);
        }
        runtimes.push(RuntimeBackend::Vulkan);
        assert(runtimes@ =~= runtimes_for(cuda, rocm, apple_silicon));
        runtimes
    }
}

proof fn lemma_disk_prefix(s: Seq<(u64, u64)>, k: int)
    requires
        0 <= k <= s.len(),
    ensures
        0 <= disk_total(s.take(k)) <= disk_total(s),
        0 <= disk_available(s.take(k)) <= disk_available(s),
    decreases s.len() - k,
{
    if k < s.len() {
        lemma_disk_prefix(s, k + 1);
        assert(s.take(k + 1).drop_last() =~= s.take(k));
    } else {
        assert(s.take(k) =~= s);
    }
    lemma_disk_nonneg(s.take(k));
}

proof fn lemma_disk_nonneg(s: Seq<(u64, u64)>)
    ensures
        disk_total(s) >= 0,
        disk_available(s) >= 0,
    decreases s.len(),
{
    if s.len() > 0 {
        lemma_disk_nonneg(s.drop_last());
    }
}

} // verus!
