//! The CUDA backend. Whether the device could be opened is decided when
//! the runtime is made; without a device every operation on it fails.

use vstd::prelude::*;
use crate::text::decimal;
use crate::runtimes::common::{
    StageWork, ShardWork, TransferWork, input_bytes, simulated_ms, per_mib, output_id, total_input_bytes,
    simulated_delay, stage_output_id, strings, with_number, starts_with, GIB,
};
use crate::types::{RuntimeBackend, TensorSpec, TensorHandle, ModelShardSpec, ShardHandle, StageExecution, TensorTransfer};

verus! {

/// Properties of a CUDA device.
#[derive(Debug, Clone)]
pub struct DeviceInfo {
    pub name: String,
    pub compute_capability: String,
    pub total_memory: u64,
    pub multiprocessor_count: u32,
    pub max_threads_per_block: u32,
    pub max_threads_per_multiprocessor: u32,
    pub warp_size: u32,
}

/// Capabilities of the CUDA backend.
#[derive(Debug, Clone)]
pub struct RuntimeCapabilities {
    pub backend: RuntimeBackend,
    pub supported_dtypes: Vec<String>,
    pub supported_precisions: Vec<String>,
    pub max_tensor_size: u64,
    pub supports_flash_attention: bool,
    pub supports_tensor_cores: bool,
}

/// CUDA runtime errors.
#[derive(Debug, Clone, PartialEq, Eq)]
pub enum CudaError {
    DeviceNotInitialized,
    DriverError(String),
    ModelLoadFailed(String),
    TensorAllocationFailed(String),
    StageExecutionFailed(String),
    TensorTransferFailed(String),
    UnsupportedOperation(String),
    Internal(String),
}

/// Memory of the simulated device.
pub const DEVICE_MEMORY: u64 = 16 * GIB;

/// The CUDA runtime on one device.
pub struct CudaRuntime {
    pub backend: RuntimeBackend,
    pub device_id: usize,
    pub device_ready: bool,
}

pub open spec fn cuda_device(id: usize) -> Seq<char> {
    seq!['c', 'u', 'd', 'a', ':'] + decimal(id as nat)
}

impl CudaRuntime {
    /// Whether the device is open.
    pub open spec fn ready(&self) -> bool {
        self.device_ready
    }

    /// A runtime on device `device_id`; `device_ready` tells whether the
    /// device could be opened.
    pub fn new(device_id: usize, device_ready: bool) -> (r: Result<Self, CudaError>)
        ensures
            r matches Ok(rt) && rt.backend == RuntimeBackend::CUDA && rt.device_id == device_id && rt.ready() == device_ready,
    {
        Ok(CudaRuntime { backend: RuntimeBackend::CUDA, device_id, device_ready })
    }

    /// Whether the device is open.
    pub fn is_available(&self) -> (r: bool)
        ensures
            r == self.ready(),
    {
        self.device_ready
    }

    /// The device's properties: `NVIDIA GPU <id>`, compute capability 8.0,
    /// 16 GiB, 28 multiprocessors.
    pub fn get_device_info(&self) -> (r: Result<DeviceInfo, CudaError>)
        ensures
            !self.ready() ==> r == Err::<DeviceInfo, CudaError>(CudaError::DeviceNotInitialized),
            self.ready() ==> (r matches Ok(d)
                && d.name@ == "NVIDIA GPU "@ + decimal(self.device_id as nat)
                && d.compute_capability@ == "8.0"@
                && d.total_memory == DEVICE_MEMORY
                && d.multiprocessor_count == 28
                && d.max_threads_per_block == 1024
                && d.max_threads_per_multiprocessor == 2048
                && d.warp_size == 32),
    {
        if !self.device_ready {
            return Err(CudaError::DeviceNotInitialized);
        }
        Ok(DeviceInfo {
            name: with_number("NVIDIA GPU ", self.device_id as u64),
            compute_capability: String::from_str("8.0"),
            total_memory: DEVICE_MEMORY,
            multiprocessor_count: 28,
            max_threads_per_block: 1024,
            max_threads_per_multiprocessor: 2048,
            warp_size: 32,
        })
    }

    /// f32, f16, bf16, i8 and i4 tensors up to 16 GiB, with flash attention
    /// and tensor cores.
    pub fn probe(&self) -> (r: RuntimeCapabilities)
        ensures
            r.backend == self.backend,
            r.supported_dtypes@.len() == 5,
            r.supported_dtypes@[0]@ == "f32"@,
            r.supported_dtypes@[1]@ == "f16"@,
            r.supported_dtypes@[2]@ == "bf16"@,
            r.supported_dtypes@[3]@ == "i8"@,
            r.supported_dtypes@[4]@ == "i4"@,
            r.supported_precisions@.len() == 5,
            r.supported_precisions@[0]@ == "fp32"@,
            r.supported_precisions@[1]@ == "fp16"@,
            r.supported_precisions@[2]@ == "bf16"@,
            r.supported_precisions@[3]@ == "int8"@,
            r.supported_precisions@[4]@ == "int4"@,
            r.max_tensor_size == 16 * GIB,
            r.supports_flash_attention,
            r.supports_tensor_cores,
    {
        RuntimeCapabilities {
            backend: self.backend,
            supported_dtypes: strings(&["f32", "f16", "bf16", "i8", "i4"]),
            supported_precisions: strings(&["fp32", "fp16", "bf16", "int8", "int4"]),
            max_tensor_size: 16 * GIB,
            supports_flash_attention: true,
            supports_tensor_cores: true,
        }
    }

    /// Loading a shard: one millisecond per 100 MiB.
    pub fn load_shard(&self, spec: &ModelShardSpec) -> (r: Result<ShardWork, CudaError>)
        ensures
            !self.ready() ==> r == Err::<ShardWork, CudaError>(CudaError::DeviceNotInitialized),
            self.ready() ==> (r matches Ok(w) && w.load_ms == per_mib(spec.bytes, 100)
                && w.handle.shard_id == spec.shard_id && w.handle.backend == self.backend),
    {
        if !self.device_ready {
            return Err(CudaError::DeviceNotInitialized);
        }
        let load_ms = (spec.bytes / (100 * 1024 * 1024)) as u32;
        Ok(ShardWork { load_ms, handle: ShardHandle { shard_id: spec.shard_id, backend: self.backend } })
    }

    /// A tensor on `cuda:<id>`; empty tensors and tensors larger than the
    /// device memory are refused.
    pub fn allocate_tensor(&self, spec: &TensorSpec) -> (r: Result<TensorHandle, CudaError>)
        ensures
            !self.ready() ==> r == Err::<TensorHandle, CudaError>(CudaError::DeviceNotInitialized),
            self.ready() && spec.bytes == 0 ==> (r matches Err(CudaError::TensorAllocationFailed(m)) && m@ == "Tensor size cannot be zero"@),
            self.ready() && spec.bytes > DEVICE_MEMORY ==> (r matches Err(CudaError::TensorAllocationFailed(m))
                && m@ == "Tensor size "@ + decimal(spec.bytes as nat) + " exceeds GPU memory "@ + decimal(DEVICE_MEMORY as nat)),
            self.ready() && 0 < spec.bytes <= DEVICE_MEMORY ==> (r matches Ok(h) && h.tensor_id@ == spec.tensor_id@
                && h.device@ == cuda_device(self.device_id) && h.offset == 0 && h.size == spec.bytes),
    {
        if !self.device_ready {
            return Err(CudaError::DeviceNotInitialized);
        }
        if spec.bytes == 0 {
            return Err(CudaError::TensorAllocationFailed(String::from_str("Tensor size cannot be zero")));
        }
        let info = match self.get_device_info() {
            Ok(i) => i,
            Err(e) => return Err(e),
        };
        if spec.bytes > info.total_memory {
            let mut m = with_number("Tensor size ", spec.bytes);
            let tail = with_number(" exceeds GPU memory ", info.total_memory);
            m.append(tail.as_str());
            return Err(CudaError::TensorAllocationFailed(m));
        }
        let device = with_number("cuda:", self.device_id as u64);
        proof {
            reveal_strlit("cuda:");
        }
        Ok(TensorHandle { tensor_id: spec.tensor_id.clone(), device, offset: 0, size: spec.bytes })
    }

    /// Running a stage: one millisecond per 500 MiB of input, 1 to 500; one
    /// output tensor on `cuda:<id>` as large as the input.
    pub fn execute_stage(&self, request: &StageExecution) -> (r: Result<StageWork, CudaError>)
        requires
            input_bytes(request.input_tensors@) <= u64::MAX,
        ensures
            !self.ready() ==> r == Err::<StageWork, CudaError>(CudaError::DeviceNotInitialized),
            self.ready() ==> (r matches Ok(w) && {
                let total = input_bytes(request.input_tensors@) as u64;
                &&& w.compute_ms == simulated_ms(total, 500, 1, 500)
                &&& w.output_tensors@.len() == 1
                &&& w.output_tensors@[0].tensor_id@ == output_id(request.stage_id)
                &&& w.output_tensors@[0].device@ == cuda_device(self.device_id)
                &&& w.output_tensors@[0].offset == 0
                &&& w.output_tensors@[0].size == total
            }),
    {
        if !self.device_ready {
            return Err(CudaError::DeviceNotInitialized);
        }
        let total = total_input_bytes(&request.input_tensors);
        let compute_ms = simulated_delay(total, 500, 1, 500);
        let device = with_number("cuda:", self.device_id as u64);
        proof {
            reveal_strlit("cuda:");
        }
        let mut outputs: Vec<TensorHandle> = Vec::new();
        outputs.push(TensorHandle { tensor_id: stage_output_id(request.stage_id), device, offset: 0, size: total });
        Ok(StageWork { compute_ms, output_tensors: outputs })
    }

    /// Moving a tensor: one millisecond per 1000 MiB between CUDA devices,
    /// per 50 MiB otherwise, 1 to 2000.
    pub fn transfer_tensor(&self, request: &TensorTransfer) -> (r: Result<TransferWork, CudaError>)
        ensures
            r matches Ok(w) && {
                let gpu_to_gpu = request.from_device@.len() >= 4 && request.from_device@.subrange(0, 4) == "cuda"@
                    && request.to_device@.len() >= 4 && request.to_device@.subrange(0, 4) == "cuda"@;
                &&& w.transfer_ms == simulated_ms(request.bytes, if gpu_to_gpu { 1000 } else { 50 }, 1, 2000)
                &&& w.tensor_id@ == request.tensor_id@
                &&& w.bytes_transferred == request.bytes
            },
    {
        proof {
            reveal_strlit("cuda");
        }
        let gpu_to_gpu = starts_with(request.from_device.as_str(), "cuda") && starts_with(request.to_device.as_str(), "cuda");
        let rate: u64 = if gpu_to_gpu { 1000 } else { 50 };
        let transfer_ms = simulated_delay(request.bytes, rate, 1, 2000);
        Ok(TransferWork { transfer_ms, tensor_id: request.tensor_id.clone(), bytes_transferred: request.bytes })
    }

    /// Unloading a shard always succeeds.
    pub fn unload(&self, handle: ShardHandle) -> (r: Result<(), CudaError>)
        ensures
            r is Ok,
    {
        Ok(())
    }
}

} // verus!
