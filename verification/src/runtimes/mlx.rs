//! The MLX backend for Apple Silicon. The MLX libraries are not probed, so
//! the device counts as unavailable, and every operation on it fails.

use vstd::prelude::*;
use crate::text::decimal;
use crate::runtimes::common::{
    StageWork, ShardWork, TransferWork, input_bytes, simulated_ms, per_mib, output_id, total_input_bytes,
    simulated_delay, stage_output_id, strings, with_number, GIB,
};
use crate::types::{RuntimeBackend, TensorSpec, TensorHandle, ModelShardSpec, ShardHandle, StageExecution, TensorTransfer};

verus! {

/// Properties of the Apple Silicon GPU.
#[derive(Debug, Clone)]
pub struct DeviceInfo {
    pub name: String,
    pub compute_capability: String,
    pub total_memory: u64,
    pub unified_memory: bool,
    pub max_threads_per_block: u32,
    pub supports_fp16: bool,
    pub supports_bf16: bool,
}

/// Capabilities of the MLX backend.
#[derive(Debug, Clone)]
pub struct RuntimeCapabilities {
    pub backend: RuntimeBackend,
    pub supported_dtypes: Vec<String>,
    pub supported_precisions: Vec<String>,
    pub max_tensor_size: u64,
    pub supports_unified_memory: bool,
    pub supports_flash_attention: bool,
}

/// MLX runtime errors.
#[derive(Debug, Clone, PartialEq, Eq)]
pub enum MlxError {
    DeviceNotAvailable,
    MetalError(String),
    ModelLoadFailed(String),
    TensorAllocationFailed(String),
    StageExecutionFailed(String),
    TensorTransferFailed(String),
    UnsupportedOperation(String),
    Internal(String),
}

/// Unified memory of the simulated device.
pub const DEVICE_MEMORY: u64 = 16 * GIB;

/// The MLX runtime.
pub struct MlxRuntime {
    pub backend: RuntimeBackend,
    pub device_ready: bool,
}

pub open spec fn mlx_device() -> Seq<char> {
    seq!['m', 'l', 'x', ':', 'g', 'p', 'u']
}

impl MlxRuntime {
    /// Whether the device is usable.
    pub open spec fn ready(&self) -> bool {
        self.device_ready
    }

    /// Whether MLX is available: the libraries are not probed, so it is not.
    pub fn check_mlx_availability() -> (r: bool)
        ensures
            !r,
    {
        false
    }

    /// A runtime, without a device.
    pub fn new() -> (r: Result<Self, MlxError>)
        ensures
            r matches Ok(rt) && rt.backend == RuntimeBackend::MLX && !rt.ready(),
    {
        let device_ready = Self::check_mlx_availability();
        Ok(MlxRuntime { backend: RuntimeBackend::MLX, device_ready })
    }

    /// Whether the device is usable.
    pub fn is_available(&self) -> (r: bool)
        ensures
            r == self.ready(),
    {
        self.device_ready
    }

    /// The device's properties: `Apple Silicon GPU`, `metal`, 16 GiB of
    /// unified memory, fp16 and bf16.
    pub fn get_device_info(&self) -> (r: Result<DeviceInfo, MlxError>)
        ensures
            !self.ready() ==> r == Err::<DeviceInfo, MlxError>(MlxError::DeviceNotAvailable),
            self.ready() ==> (r matches Ok(d)
                && d.name@ == "Apple Silicon GPU"@
                && d.compute_capability@ == "metal"@
                && d.total_memory == DEVICE_MEMORY
                && d.unified_memory
                && d.max_threads_per_block == 1024
                && d.supports_fp16
                && d.supports_bf16),
    {
        if !self.device_ready {
            return Err(MlxError::DeviceNotAvailable);
        }
        Ok(DeviceInfo {
            name: String::from_str("Apple Silicon GPU"),
            compute_capability: String::from_str("metal"),
            total_memory: DEVICE_MEMORY,
            unified_memory: true,
            max_threads_per_block: 1024,
            supports_fp16: true,
            supports_bf16: true,
        })
    }

    /// f32, f16, bf16, i8 and i4 tensors up to 16 GiB, in unified memory,
    /// with flash attention.
    pub fn probe(&self) -> (r: RuntimeCapabilities)
        ensures
            r.backend == self.backend,
            r.supported_dtypes@.len() == 5,
            r.supported_dtypes@[0]@ == "f32"@,
            r.supported_dtypes@[1]@ == "f16"@,
            r.supported_dtypes@[2]@ == "bf16"@,
            r.supported_dtypes@[3]@ == "i8"@,
            r.supported_dtypes@[4]@ == "i4"@,
            r.supported_precisions@.len() == 5,
            r.supported_precisions@[0]@ == "fp32"@,
            r.supported_precisions@[1]@ == "fp16"@,
            r.supported_precisions@[2]@ == "bf16"@,
            r.supported_precisions@[3]@ == "int8"@,
            r.supported_precisions@[4]@ == "int4"@,
            r.max_tensor_size == 16 * GIB,
            r.supports_unified_memory,
            r.supports_flash_attention,
    {
        RuntimeCapabilities {
            backend: self.backend,
            supported_dtypes: strings(&["f32", "f16", "bf16", "i8", "i4"]),
            supported_precisions: strings(&["fp32", "fp16", "bf16", "int8", "int4"]),
            max_tensor_size: 16 * GIB,
            supports_unified_memory: true,
            supports_flash_attention: true,
        }
    }

    /// Loading a shard: one millisecond per 200 MiB.
    pub fn load_shard(&self, spec: &ModelShardSpec) -> (r: Result<ShardWork, MlxError>)
        ensures
            !self.ready() ==> r == Err::<ShardWork, MlxError>(MlxError::DeviceNotAvailable),
            self.ready() ==> (r matches Ok(w) && w.load_ms == per_mib(spec.bytes, 200)
                && w.handle.shard_id == spec.shard_id && w.handle.backend == self.backend),
    {
        if !self.device_ready {
            return Err(MlxError::DeviceNotAvailable);
        }
        let load_ms = (spec.bytes / (200 * 1024 * 1024)) as u32;
        Ok(ShardWork { load_ms, handle: ShardHandle { shard_id: spec.shard_id, backend: self.backend } })
    }

    /// A tensor in unified memory, on `mlx:gpu`; empty tensors and tensors
    /// larger than the memory are refused.
    pub fn allocate_tensor(&self, spec: &TensorSpec) -> (r: Result<TensorHandle, MlxError>)
        ensures
            !self.ready() ==> r == Err::<TensorHandle, MlxError>(MlxError::DeviceNotAvailable),
            self.ready() && spec.bytes == 0 ==> (r matches Err(MlxError::TensorAllocationFailed(m)) && m@ == "Tensor size cannot be zero"@),
            self.ready() && spec.bytes > DEVICE_MEMORY ==> (r matches Err(MlxError::TensorAllocationFailed(m))
                && m@ == "Tensor size "@ + decimal(spec.bytes as nat) + " exceeds unified memory "@ + decimal(DEVICE_MEMORY as nat)),
            self.ready() && 0 < spec.bytes <= DEVICE_MEMORY ==> (r matches Ok(h) && h.tensor_id@ == spec.tensor_id@
                && h.device@ == mlx_device() && h.offset == 0 && h.size == spec.bytes),
    {
        if !self.device_ready {
            return Err(MlxError::DeviceNotAvailable);
        }
        if spec.bytes == 0 {
            return Err(MlxError::TensorAllocationFailed(String::from_str("Tensor size cannot be zero")));
        }
        let info = match self.get_device_info() {
            Ok(i) => i,
            Err(e) => return Err(e),
        };
        if spec.bytes > info.total_memory {
            let mut m = with_number("Tensor size ", spec.bytes);
            let tail = with_number(" exceeds unified memory ", info.total_memory);
            m.append(tail.as_str());
            return Err(MlxError::TensorAllocationFailed(m));
        }
        proof {
            reveal_strlit("mlx:gpu");
        }
        Ok(TensorHandle { tensor_id: spec.tensor_id.clone(), device: String::from_str("mlx:gpu"), offset: 0, size: spec.bytes })
    }

    /// Running a stage: one millisecond per 600 MiB of input, 1 to 500; one
    /// output tensor on `mlx:gpu` as large as the input.
    pub fn execute_stage(&self, request: &StageExecution) -> (r: Result<StageWork, MlxError>)
        requires
            input_bytes(request.input_tensors@) <= u64::MAX,
        ensures
            !self.ready() ==> r == Err::<StageWork, MlxError>(MlxError::DeviceNotAvailable),
            self.ready() ==> (r matches Ok(w) && {
                let total = input_bytes(request.input_tensors@) as u64;
                &&& w.compute_ms == simulated_ms(total, 600, 1, 500)
                &&& w.output_tensors@.len() == 1
                &&& w.output_tensors@[0].tensor_id@ == output_id(request.stage_id)
                &&& w.output_tensors@[0].device@ == mlx_device()
                &&& w.output_tensors@[0].offset == 0
                &&& w.output_tensors@[0].size == total
            }),
    {
        if !self.device_ready {
            return Err(MlxError::DeviceNotAvailable);
        }
        let total = total_input_bytes(&request.input_tensors);
        let compute_ms = simulated_delay(total, 600, 1, 500);
        proof {
            reveal_strlit("mlx:gpu");
        }
        let mut outputs: Vec<TensorHandle> = Vec::new();
        outputs.push(TensorHandle {
            tensor_id: stage_output_id(request.stage_id),
            device: String::from_str("mlx:gpu"),
            offset: 0,
            size: total,
        });
        Ok(StageWork { compute_ms, output_tensors: outputs })
    }

    /// Moving a tensor within unified memory: a fixed millisecond.
    pub fn transfer_tensor(&self, request: &TensorTransfer) -> (r: Result<TransferWork, MlxError>)
        ensures
            r matches Ok(w) && w.transfer_ms == 1 && w.tensor_id@ == request.tensor_id@ && w.bytes_transferred == request.bytes,
    {
        Ok(TransferWork { transfer_ms: 1, tensor_id: request.tensor_id.clone(), bytes_transferred: request.bytes })
    }

    /// Unloading a shard always succeeds.
    pub fn unload(&self, handle: ShardHandle) -> (r: Result<(), MlxError>)
        ensures
            r is Ok,
    {
        Ok(())
    }
}

} // verus!
