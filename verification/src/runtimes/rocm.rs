//! The ROCm backend. The HIP runtime is not probed, so the device counts as
//! unavailable, and every operation on it fails.

use vstd::prelude::*;
use crate::text::decimal;
use crate::runtimes::common::{
    StageWork, ShardWork, TransferWork, input_bytes, simulated_ms, per_mib, output_id, total_input_bytes,
    simulated_delay, stage_output_id, strings, with_number, starts_with, GIB,
};
use crate::types::{RuntimeBackend, TensorSpec, TensorHandle, ModelShardSpec, ShardHandle, StageExecution, TensorTransfer};

verus! {

/// Properties of a ROCm device.
#[derive(Debug, Clone)]
pub struct DeviceInfo {
    pub name: String,
    pub compute_capability: String,
    pub total_memory: u64,
    pub multiprocessor_count: u32,
    pub max_threads_per_block: u32,
    pub max_threads_per_multiprocessor: u32,
    pub warp_size: u32,
}

/// Capabilities of the ROCm backend.
#[derive(Debug, Clone)]
pub struct RuntimeCapabilities {
    pub backend: RuntimeBackend,
    pub supported_dtypes: Vec<String>,
    pub supported_precisions: Vec<String>,
    pub max_tensor_size: u64,
    pub supports_flash_attention: bool,
    pub supports_tensor_cores: bool,
}

/// ROCm runtime errors.
#[derive(Debug, Clone, PartialEq, Eq)]
pub enum RocmError {
    DeviceNotAvailable,
    HipError(String),
    ModelLoadFailed(String),
    TensorAllocationFailed(String),
    StageExecutionFailed(String),
    TensorTransferFailed(String),
    UnsupportedOperation(String),
    Internal(String),
}

/// Memory of the simulated device.
pub const DEVICE_MEMORY: u64 = 16 * GIB;

/// The ROCm runtime on one device.
pub struct RocmRuntime {
    pub backend: RuntimeBackend,
    pub device_id: usize,
    pub device_ready: bool,
}

pub open spec fn rocm_device(id: usize) -> Seq<char> {
    seq!['r', 'o', 'c', 'm', ':'] + decimal(id as nat)
}

impl RocmRuntime {
    /// Whether the device is open.
    pub open spec fn ready(&self) -> bool {
        self.device_ready
    }

    /// Whether ROCm is available: the HIP runtime is not probed, so it is not.
    pub fn check_rocm_availability() -> (r: bool)
        ensures
            !r,
    {
        false
    }

    /// A runtime on device `device_id`, without a device.
    pub fn new(device_id: usize) -> (r: Result<Self, RocmError>)
        ensures
            r matches Ok(rt) && rt.backend == RuntimeBackend::ROCm && rt.device_id == device_id && !rt.ready(),
    {
        let device_ready = Self::check_rocm_availability();
        Ok(RocmRuntime { backend: RuntimeBackend::ROCm, device_id, device_ready })
    }

    /// Whether the device is open.
    pub fn is_available(&self) -> (r: bool)
        ensures
            r == self.ready(),
    {
        self.device_ready
    }

    /// The device's properties: `AMD GPU`, compute capability `rocm`,
    /// 16 GiB, 40 multiprocessors.
    pub fn get_device_info(&self) -> (r: Result<DeviceInfo, RocmError>)
        ensures
            !self.ready() ==> r == Err::<DeviceInfo, RocmError>(RocmError::DeviceNotAvailable),
            self.ready() ==> (r matches Ok(d)
                && d.name@ == "AMD GPU"@
                && d.compute_capability@ == "rocm"@
                && d.total_memory == DEVICE_MEMORY
                && d.multiprocessor_count == 40
                && d.max_threads_per_block == 1024
                && d.max_threads_per_multiprocessor == 2560
                && d.warp_size == 64),
    {
        if !self.device_ready {
            return Err(RocmError::DeviceNotAvailable);
        }
        Ok(DeviceInfo {
            name: String::from_str("AMD GPU"),
            compute_capability: String::from_str("rocm"),
            total_memory: DEVICE_MEMORY,
            multiprocessor_count: 40,
            max_threads_per_block: 1024,
            max_threads_per_multiprocessor: 2560,
            warp_size: 64,
        })
    }

    /// f32, f16, bf16, i8 and i4 tensors up to 16 GiB, with flash attention,
    /// without tensor cores.
    pub fn probe(&self) -> (r: RuntimeCapabilities)
        ensures
            r.backend == self.backend,
            r.supported_dtypes@.len() == 5,
            r.supported_dtypes@[0]@ == "f32"@,
            r.supported_dtypes@[1]@ == "f16"@,
            r.supported_dtypes@[2]@ == "bf16"@,
            r.supported_dtypes@[3]@ == "i8"@,
            r.supported_dtypes@[4]@ == "i4"@,
            r.supported_precisions@.len() == 5,
            r.supported_precisions@[0]@ == "fp32"@,
            r.supported_precisions@[1]@ == "fp16"@,
            r.supported_precisions@[2]@ == "bf16"@,
            r.supported_precisions@[3]@ == "int8"@,
            r.supported_precisions@[4]@ == "int4"@,
            r.max_tensor_size == 16 * GIB,
            r.supports_flash_attention,
            !r.supports_tensor_cores,
    {
        RuntimeCapabilities {
            backend: self.backend,
            supported_dtypes: strings(&["f32", "f16", "bf16", "i8", "i4"]),
            supported_precisions: strings(&["fp32", "fp16", "bf16", "int8", "int4"]),
            max_tensor_size: 16 * GIB,
            supports_flash_attention: true,
            supports_tensor_cores: false,
        }
    }

    /// Loading a shard: one millisecond per 100 MiB.
    pub fn load_shard(&self, spec: &ModelShardSpec) -> (r: Result<ShardWork, RocmError>)
        ensures
            !self.ready() ==> r == Err::<ShardWork, RocmError>(RocmError::DeviceNotAvailable),
            self.ready() ==> (r matches Ok(w) && w.load_ms == per_mib(spec.bytes, 100)
                && w.handle.shard_id == spec.shard_id && w.handle.backend == self.backend),
    {
        if !self.device_ready {
            return Err(RocmError::DeviceNotAvailable);
        }
        let load_ms = (spec.bytes / (100 * 1024 * 1024)) as u32;
        Ok(ShardWork { load_ms, handle: ShardHandle { shard_id: spec.shard_id, backend: self.backend } })
    }

    /// A tensor on `rocm:<id>`; empty tensors and tensors larger than the
    /// device memory are refused.
    pub fn allocate_tensor(&self, spec: &TensorSpec) -> (r: Result<TensorHandle, RocmError>)
        ensures
            !self.ready() ==> r == Err::<TensorHandle, RocmError>(RocmError::DeviceNotAvailable),
            self.ready() && spec.bytes == 0 ==> (r matches Err(RocmError::TensorAllocationFailed(m)) && m@ == "Tensor size cannot be zero"@),
            self.ready() && spec.bytes > DEVICE_MEMORY ==> (r matches Err(RocmError::TensorAllocationFailed(m))
                && m@ == "Tensor size "@ + decimal(spec.bytes as nat) + " exceeds GPU memory "@ + decimal(DEVICE_MEMORY as nat)),
            self.ready() && 0 < spec.bytes <= DEVICE_MEMORY ==> (r matches Ok(h) && h.tensor_id@ == spec.tensor_id@
                && h.device@ == rocm_device(self.device_id) && h.offset == 0 && h.size == spec.bytes),
    {
        if !self.device_ready {
            return Err(RocmError::DeviceNotAvailable);
        }
        if spec.bytes == 0 {
            return Err(RocmError::TensorAllocationFailed(String::from_str("Tensor size cannot be zero")));
        }
        let info = match self.get_device_info() {
            Ok(i) => i,
            Err(e) => return Err(e),
        };
        if spec.bytes > info.total_memory {
            let mut m = with_number("Tensor size ", spec.bytes);
            let tail = with_number(" exceeds GPU memory ", info.total_memory);
            m.append(tail.as_str());
            return Err(RocmError::TensorAllocationFailed(m));
        }
        let device = with_number("rocm:", self.device_id as u64);
        proof {
            reveal_strlit("rocm:");
        }
        Ok(TensorHandle { tensor_id: spec.tensor_id.clone(), device, offset: 0, size: spec.bytes })
    }

    /// Running a stage: one millisecond per 400 MiB of input, 1 to 500; one
    /// output tensor on `rocm:<id>` as large as the input.
    pub fn execute_stage(&self, request: &StageExecution) -> (r: Result<StageWork, RocmError>)
        requires
            input_bytes(request.input_tensors@) <= u64::MAX,
        ensures
            !self.ready() ==> r == Err::<StageWork, RocmError>(RocmError::DeviceNotAvailable),
            self.ready() ==> (r matches Ok(w) && {
                let total = input_bytes(request.input_tensors@) as u64;
                &&& w.compute_ms == simulated_ms(total, 400, 1, 500)
                &&& w.output_tensors@.len() == 1
                &&& w.output_tensors@[0].tensor_id@ == output_id(request.stage_id)
                &&& w.output_tensors@[0].device@ == rocm_device(self.device_id)
                &&& w.output_tensors@[0].offset == 0
                &&& w.output_tensors@[0].size == total
            }),
    {
        if !self.device_ready {
            return Err(RocmError::DeviceNotAvailable);
        }
        let total = total_input_bytes(&request.input_tensors);
        let compute_ms = simulated_delay(total, 400, 1, 500);
        let device = with_number("rocm:", self.device_id as u64);
        proof {
            reveal_strlit("rocm:");
        }
        let mut outputs: Vec<TensorHandle> = Vec::new();
        outputs.push(TensorHandle { tensor_id: stage_output_id(request.stage_id), device, offset: 0, size: total });
        Ok(StageWork { compute_ms, output_tensors: outputs })
    }

    /// Moving a tensor: one millisecond per 800 MiB between ROCm devices,
    /// per 50 MiB otherwise, 1 to 2000.
    pub fn transfer_tensor(&self, request: &TensorTransfer) -> (r: Result<TransferWork, RocmError>)
        ensures
            r matches Ok(w) && {
                let gpu_to_gpu = request.from_device@.len() >= 4 && request.from_device@.subrange(0, 4) == "rocm"@
                    && request.to_device@.len() >= 4 && request.to_device@.subrange(0, 4) == "rocm"@;
                &&& w.transfer_ms == simulated_ms(request.bytes, if gpu_to_gpu { 800 } else { 50 }, 1, 2000)
                &&& w.tensor_id@ == request.tensor_id@
                &&& w.bytes_transferred == request.bytes
            },
    {
        proof {
            reveal_strlit("rocm");
        }
        let gpu_to_gpu = starts_with(request.from_device.as_str(), "rocm") && starts_with(request.to_device.as_str(), "rocm");
        let rate: u64 = if gpu_to_gpu { 800 } else { 50 };
        let transfer_ms = simulated_delay(request.bytes, rate, 1, 2000);
        Ok(TransferWork { transfer_ms, tensor_id: request.tensor_id.clone(), bytes_transferred: request.bytes })
    }

    /// Unloading a shard always succeeds.
    pub fn unload(&self, handle: ShardHandle) -> (r: Result<(), RocmError>)
        ensures
            r is Ok,
    {
        Ok(())
    }
}

} // verus!
