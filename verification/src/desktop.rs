//! What the desktop application knows of the cluster, and where it asks
//! the coordinator's API for it.

use vstd::prelude::*;

verus! {

/// The cluster's logical resources as the API reports them; the compute
/// units are carried as the bit pattern of their `f32` value.
#[derive(Debug, Clone)]
pub struct LogicalResources {
    pub cpu_compute_units_bits: u32,
    pub host_memory_bytes: u64,
    pub device_memory_bytes: u64,
    pub storage_bytes: u64,
    pub preferred_parallelism: String,
}

/// The cluster as the API reports it.
#[derive(Debug, Clone)]
pub struct ClusterInfo {
    pub id: String,
    pub name: String,
    pub logical_resources: LogicalResources,
    pub node_count: usize,
}

/// A node's capabilities in brief.
#[derive(Debug, Clone, Copy)]
pub struct NodeCapabilities {
    pub cpu_cores: u32,
    pub gpu_count: usize,
    pub memory_bytes: u64,
}

/// A node's resource use in brief; the CPU load is carried as the bit
/// pattern of its `f32` value.
#[derive(Debug, Clone, Copy)]
pub struct NodeResources {
    pub cpu_usage_percent_bits: u32,
    pub memory_used_bytes: u64,
}

/// A node as the API reports it.
#[derive(Debug, Clone)]
pub struct NodeInfo {
    pub id: String,
    pub name: String,
    pub hostname: String,
    pub status: String,
    pub capabilities: NodeCapabilities,
    pub resources: NodeResources,
}

/// A model as the API lists it.
#[derive(Debug, Clone)]
pub struct ModelInfo {
    pub id: String,
    pub object: String,
    pub created: i64,
    pub owned_by: String,
}

/// The coordinator API the application talks to.
#[derive(Debug, Clone)]
pub struct ClusterClient {
    pub base_url: String,
}

impl ClusterClient {
    /// A client of the coordinator at `base_url`.
    pub fn new(base_url: String) -> (r: Self)
        ensures
            r.base_url@ == base_url@,
    {
        ClusterClient { base_url }
    }

    /// A client of the coordinator the application talks to unless told
    /// otherwise: `http://[::1]:8080`.
    pub fn default_coordinator() -> (r: Self)
        ensures
            r.base_url@ == "http://[::1]:8080"@,
    {
        ClusterClient { base_url: String::from_str("http://[::1]:8080") }
    }

    fn url(&self, path: &str) -> (r: String)
        ensures
            r@ == self.base_url@ + path@,
    {
        let mut u = self.base_url.clone();
        u.append(path);
        u
    }

    /// Where the cluster is described: `<base>/api/cluster`.
    pub fn cluster_url(&self) -> (r: String)
        ensures
            r@ == self.base_url@ + "/api/cluster"@,
    {
        self.url("/api/cluster")
    }

    /// Where the nodes are listed: `<base>/api/cluster/nodes`.
    pub fn nodes_url(&self) -> (r: String)
        ensures
            r@ == self.base_url@ + "/api/cluster/nodes"@,
    {
        self.url("/api/cluster/nodes")
    }

    /// Where the models are listed: `<base>/api/v1/models`.
    pub fn models_url(&self) -> (r: String)
        ensures
            r@ == self.base_url@ + "/api/v1/models"@,
    {
        self.url("/api/v1/models")
    }

    /// Points the client at another coordinator.
    pub fn set_coordinator_url(&mut self, url: String)
        ensures
            final(self).base_url@ == url@,
    {
        self.base_url = url;
    }
}

} // verus!
