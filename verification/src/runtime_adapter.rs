//! The node agent's adapter to its inference backend.

use vstd::prelude::*;
use crate::runtimes::common::{strings, GIB};
use crate::types::{RuntimeBackend, TensorSpec, TensorHandle, ModelShardSpec, ShardHandle};

verus! {

/// Capabilities of the adapter's backend.
#[derive(Debug, Clone)]
pub struct RuntimeCapabilities {
    pub backend: RuntimeBackend,
    pub supported_dtypes: Vec<String>,
    pub max_tensor_size: u64,
}

/// Adapter errors.
#[derive(Debug, Clone, PartialEq, Eq)]
pub enum AdapterError {
    Failed(String),
}

/// Adapter for a runtime backend.
pub struct RuntimeAdapter {
    pub backend: RuntimeBackend,
}

impl RuntimeAdapter {
    /// An adapter for the GGML backend.
    pub fn new() -> (r: Self)
        ensures
            r.backend == RuntimeBackend::GGML,
    {
        RuntimeAdapter { backend: RuntimeBackend::GGML }
    }

    /// f32, f16 and q4_k_m tensors up to 16 GiB.
    pub fn probe(&self) -> (r: RuntimeCapabilities)
        ensures
            r.backend == self.backend,
            r.supported_dtypes@.len() == 3,
            r.supported_dtypes@[0]@ == "f32"@,
            r.supported_dtypes@[1]@ == "f16"@,
            r.supported_dtypes@[2]@ == "q4_k_m"@,
            r.max_tensor_size == 16 * GIB,
    {
        RuntimeCapabilities {
            backend: self.backend,
            supported_dtypes: strings(&["f32", "f16", "q4_k_m"]),
            max_tensor_size: 16 * GIB,
        }
    }

    /// Loading a shard hands back shard 0 of the adapter's backend.
    pub fn load_shard(&self, spec: &ModelShardSpec) -> (r: Result<ShardHandle, AdapterError>)
        ensures
            r == Ok::<ShardHandle, AdapterError>(ShardHandle { shard_id: 0, backend: self.backend }),
    {
        Ok(ShardHandle { shard_id: 0, backend: self.backend })
    }

    /// Allocating a tensor hands back an empty `placeholder` tensor on `cpu`.
    pub fn allocate_tensor(&self, spec: &TensorSpec) -> (r: Result<TensorHandle, AdapterError>)
        ensures
            r matches Ok(h) && h.tensor_id@ == "placeholder"@ && h.device@ == "cpu"@ && h.offset == 0 && h.size == 0,
    {
        Ok(TensorHandle {
            tensor_id: String::from_str("placeholder"),
            device: String::from_str("cpu"),
            offset: 0,
            size: 0,
        })
    }
}

} // verus!
