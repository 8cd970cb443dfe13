//! The CPU backend.

use vstd::prelude::*;
use crate::runtimes::common::{
    StageWork, ShardWork, TransferWork, input_bytes, simulated_ms, per_mib, output_id, total_input_bytes,
    simulated_delay, stage_output_id, strings, GIB,
};
use crate::types::{RuntimeBackend, TensorSpec, TensorHandle, ModelShardSpec, ShardHandle, StageExecution, TensorTransfer};

verus! {

/// Capabilities of the CPU backend.
#[derive(Debug, Clone)]
pub struct RuntimeCapabilities {
    pub backend: RuntimeBackend,
    pub supported_dtypes: Vec<String>,
    pub supported_precisions: Vec<String>,
    pub max_tensor_size: u64,
    pub supports_simd: bool,
    pub supports_multithreading: bool,
}

/// CPU runtime errors.
#[derive(Debug, Clone, PartialEq, Eq)]
pub enum CpuError {
    ModelLoadFailed(String),
    TensorAllocationFailed(String),
    StageExecutionFailed(String),
    TensorTransferFailed(String),
    UnsupportedOperation(String),
    Internal(String),
}

/// The CPU runtime.
pub struct CpuRuntime {
    pub backend: RuntimeBackend,
}

impl CpuRuntime {
    pub fn new() -> (r: Self)
        ensures
            r.backend == RuntimeBackend::CPU,
    {
        CpuRuntime { backend: RuntimeBackend::CPU }
    }

    /// f32, f16, i8 and i4 tensors, fp32 to int4 precision, up to 32 GiB,
    /// with SIMD and threads.
    pub fn probe(&self) -> (r: RuntimeCapabilities)
        ensures
            r.backend == self.backend,
            r.supported_dtypes@.len() == 4,
            r.supported_dtypes@[0]@ == "f32"@,
            r.supported_dtypes@[1]@ == "f16"@,
            r.supported_dtypes@[2]@ == "i8"@,
            r.supported_dtypes@[3]@ == "i4"@,
            r.supported_precisions@.len() == 4,
            r.supported_precisions@[0]@ == "fp32"@,
            r.supported_precisions@[1]@ == "fp16"@,
            r.supported_precisions@[2]@ == "int8"@,
            r.supported_precisions@[3]@ == "int4"@,
            r.max_tensor_size == 32 * GIB,
            r.supports_simd,
            r.supports_multithreading,
    {
        let dtypes = strings(&["f32", "f16", "i8", "i4"]);
        let precisions = strings(&["fp32", "fp16", "int8", "int4"]);
        RuntimeCapabilities {
            backend: self.backend,
            supported_dtypes: dtypes,
            supported_precisions: precisions,
            max_tensor_size: 32 * GIB,
            supports_simd: true,
            supports_multithreading: true,
        }
    }

    /// Loading a shard: one millisecond per 50 MiB.
    pub fn load_shard(&self, spec: &ModelShardSpec) -> (r: Result<ShardWork, CpuError>)
        ensures
            r matches Ok(w) && w.load_ms == per_mib(spec.bytes, 50)
                && w.handle.shard_id == spec.shard_id && w.handle.backend == self.backend,
    {
        let load_ms = (spec.bytes / (50 * 1024 * 1024)) as u32;
        Ok(ShardWork { load_ms, handle: ShardHandle { shard_id: spec.shard_id, backend: self.backend } })
    }

    /// A tensor on `cpu:0`; empty tensors are refused.
    pub fn allocate_tensor(&self, spec: &TensorSpec) -> (r: Result<TensorHandle, CpuError>)
        ensures
            spec.bytes == 0 ==> (r matches Err(CpuError::TensorAllocationFailed(m)) && m@ == "Tensor size cannot be zero"@),
            spec.bytes > 0 ==> (r matches Ok(h) && h.tensor_id@ == spec.tensor_id@ && h.device@ == "cpu:0"@
                && h.offset == 0 && h.size == spec.bytes),
    {
        if spec.bytes == 0 {
            return Err(CpuError::TensorAllocationFailed(String::from_str("Tensor size cannot be zero")));
        }
        Ok(TensorHandle { tensor_id: spec.tensor_id.clone(), device: String::from_str("cpu:0"), offset: 0, size: spec.bytes })
    }

    /// Running a stage: one millisecond per 100 MiB of input, 1 to 1000; one
    /// output tensor on `cpu:0` as large as the input.
    pub fn execute_stage(&self, request: &StageExecution) -> (r: Result<StageWork, CpuError>)
        requires
            input_bytes(request.input_tensors@) <= u64::MAX,
        ensures
            r matches Ok(w) && {
                let total = input_bytes(request.input_tensors@) as u64;
                &&& w.compute_ms == simulated_ms(total, 100, 1, 1000)
                &&& w.output_tensors@.len() == 1
                &&& w.output_tensors@[0].tensor_id@ == output_id(request.stage_id)
                &&& w.output_tensors@[0].device@ == "cpu:0"@
                &&& w.output_tensors@[0].offset == 0
                &&& w.output_tensors@[0].size == total
            },
    {
        let total = total_input_bytes(&request.input_tensors);
        let compute_ms = simulated_delay(total, 100, 1, 1000);
        let mut outputs: Vec<TensorHandle> = Vec::new();
        outputs.push(TensorHandle {
            tensor_id: stage_output_id(request.stage_id),
            device: String::from_str("cpu:0"),
            offset: 0,
            size: total,
        });
        Ok(StageWork { compute_ms, output_tensors: outputs })
    }

    /// Moving a tensor: one millisecond per 50 MiB, 1 to 2000.
    pub fn transfer_tensor(&self, request: &TensorTransfer) -> (r: Result<TransferWork, CpuError>)
        ensures
            r matches Ok(w) && w.transfer_ms == simulated_ms(request.bytes, 50, 1, 2000)
                && w.tensor_id@ == request.tensor_id@ && w.bytes_transferred == request.bytes,
    {
        let transfer_ms = simulated_delay(request.bytes, 50, 1, 2000);
        Ok(TransferWork { transfer_ms, tensor_id: request.tensor_id.clone(), bytes_transferred: request.bytes })
    }

    /// Unloading a shard always succeeds.
    pub fn unload(&self, handle: ShardHandle) -> (r: Result<(), CpuError>)
        ensures
            r is Ok,
    {
        Ok(())
    }
}

} // verus!
