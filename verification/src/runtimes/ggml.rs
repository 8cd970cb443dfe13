//! The GGML backend (llama.cpp style): quantized formats, CPU placement,
//! and GGUF model files.

use vstd::prelude::*;
use crate::text::decimal;
use crate::gguf::{GgufParser, GgufModel, GgufError, GModel, parse_model, model_view, error_text};
use crate::runtimes::common::{
    StageWork, ShardWork, TransferWork, input_bytes, simulated_ms, per_mib, output_id, total_input_bytes,
    simulated_delay, stage_output_id, strings, with_number, GIB, MIB,
};
use crate::types::{RuntimeBackend, TensorSpec, TensorHandle, ModelShardSpec, ShardHandle, StageExecution, TensorTransfer};

verus! {

/// Capabilities of the GGML backend.
#[derive(Debug, Clone)]
pub struct RuntimeCapabilities {
    pub backend: RuntimeBackend,
    pub supported_dtypes: Vec<String>,
    pub max_tensor_size: u64,
    pub supports_gpu: bool,
    pub supports_cpu: bool,
    pub supports_multi_gpu: bool,
}

/// Runtime metrics.
#[derive(Debug, Clone, Copy)]
pub struct RuntimeMetrics {
    pub loaded_models: usize,
    pub allocated_tensors: usize,
    pub memory_used_bytes: u64,
    pub gpu_memory_used_bytes: u64,
}

/// GGML runtime errors.
#[derive(Debug, Clone, PartialEq, Eq)]
pub enum GgmlError {
    ModelLoadFailed(String),
    TensorAllocationFailed(String),
    StageExecutionFailed(String),
    TensorTransferFailed(String),
    UnsupportedOperation(String),
    Internal(String),
    TokenizerLoadFailed(String),
    TokenizerNotLoaded,
    TokenizationFailed(String),
    DetokenizationFailed(String),
}

/// Largest tensor the backend allocates.
pub const MAX_TENSOR_SIZE: u64 = 16 * GIB;

/// Tensors above this size stay on the CPU.
pub const LARGE_TENSOR: u64 = 512 * MIB;

/// The GGML runtime.
pub struct GgmlRuntime {
    pub backend: RuntimeBackend,
    pub loaded_models: Vec<String>,
}

pub open spec fn cpu0() -> Seq<char> {
    seq!['c', 'p', 'u', ':', '0']
}

pub open spec fn ggml_dtypes() -> Seq<Seq<char>> {
    seq![
        "f32"@, "f16"@, "q4_0"@, "q4_1"@, "q5_0"@, "q5_1"@, "q8_0"@,
        "q8_1"@, "q4_k_m"@, "q4_k_s"@, "q5_k_m"@, "q5_k_s"@, "q6_k"@, "q8_k"@
    ]
}

impl GgmlRuntime {
    /// The paths of the models loaded, in load order.
    pub open spec fn models(&self) -> Seq<Seq<char>> {
        self.loaded_models@.map_values(|s: String| s@)
    }

    pub fn new() -> (r: Self)
        ensures
            r.backend == RuntimeBackend::GGML,
            r.models() == Seq::<Seq<char>>::empty(),
    {
        let r = GgmlRuntime { backend: RuntimeBackend::GGML, loaded_models: Vec::new() };
        assert(r.models() =~= Seq::<Seq<char>>::empty());
        r
    }

    /// Tokenizing text: this runtime holds no tokenizer, so it is refused as
    /// not loaded.
    pub fn tokenize(&self, text: &str) -> (r: Result<Vec<u32>, GgmlError>)
        ensures
            r matches Err(GgmlError::TokenizerNotLoaded),
    {
        Err(GgmlError::TokenizerNotLoaded)
    }

    /// Turning token ids back into text: this runtime holds no tokenizer, so
    /// it is refused as not loaded.
    pub fn detokenize(&self, tokens: &[u32]) -> (r: Result<String, GgmlError>)
        ensures
            r matches Err(GgmlError::TokenizerNotLoaded),
    {
        Err(GgmlError::TokenizerNotLoaded)
    }

    /// Whether a GPU can be used: no GPU backend is linked, so none can.
    pub fn detect_gpu_support(&self) -> (r: bool)
        ensures
            !r,
    {
        false
    }

    /// f32, f16 and the quantized formats, up to 16 GiB, on the CPU only.
    pub fn probe(&self) -> (r: RuntimeCapabilities)
        ensures
            r.backend == self.backend,
            r.supported_dtypes@.len() == ggml_dtypes().len(),
            forall|i: int| 0 <= i < ggml_dtypes().len() ==> #[trigger] r.supported_dtypes@[i]@ == ggml_dtypes()[i],
            r.max_tensor_size == MAX_TENSOR_SIZE,
            !r.supports_gpu,
            r.supports_cpu,
            !r.supports_multi_gpu,
    {
        let items = [
            "f32", "f16", "q4_0", "q4_1", "q5_0", "q5_1", "q8_0",
            "q8_1", "q4_k_m", "q4_k_s", "q5_k_m", "q5_k_s", "q6_k", "q8_k",
        ];
        let dtypes = strings(&items);
        assert(items@.map_values(|s: &str| s@) =~= ggml_dtypes());
        assert forall|i: int| 0 <= i < ggml_dtypes().len() implies #[trigger] dtypes@[i]@ == ggml_dtypes()[i] by {
            assert(items@.map_values(|s: &str| s@)[i] == items@[i]@);
        }
        RuntimeCapabilities {
            backend: self.backend,
            supported_dtypes: dtypes,
            max_tensor_size: MAX_TENSOR_SIZE,
            supports_gpu: self.detect_gpu_support(),
            supports_cpu: true,
            supports_multi_gpu: false,
        }
    }

    /// Loading a shard: one millisecond per 10 MiB.
    pub fn load_shard(&self, spec: &ModelShardSpec) -> (r: Result<ShardWork, GgmlError>)
        ensures
            r matches Ok(w) && w.load_ms == per_mib(spec.bytes, 10)
                && w.handle.shard_id == spec.shard_id && w.handle.backend == self.backend,
    {
        let load_ms = (spec.bytes / (10 * 1024 * 1024)) as u32;
        Ok(ShardWork { load_ms, handle: ShardHandle { shard_id: spec.shard_id, backend: self.backend } })
    }

    /// A tensor of at most 16 GiB, on `cpu:0` (tensors above 512 MiB always
    /// stay there; smaller ones would go to `cuda:0` if a GPU could be used);
    /// empty tensors are refused.
    pub fn allocate_tensor(&self, spec: &TensorSpec) -> (r: Result<TensorHandle, GgmlError>)
        ensures
            spec.bytes == 0 ==> (r matches Err(GgmlError::TensorAllocationFailed(m)) && m@ == "Tensor size cannot be zero"@),
            spec.bytes > MAX_TENSOR_SIZE ==> (r matches Err(GgmlError::TensorAllocationFailed(m))
                && m@ == "Tensor size "@ + decimal(spec.bytes as nat) + " exceeds maximum "@ + decimal(MAX_TENSOR_SIZE as nat)),
            0 < spec.bytes <= MAX_TENSOR_SIZE ==> (r matches Ok(h) && h.tensor_id@ == spec.tensor_id@
                && h.device@ == cpu0() && h.offset == 0 && h.size == spec.bytes),
    {
        if spec.bytes == 0 {
            return Err(GgmlError::TensorAllocationFailed(String::from_str("Tensor size cannot be zero")));
        }
        if spec.bytes > MAX_TENSOR_SIZE {
            let mut m = with_number("Tensor size ", spec.bytes);
            let tail = with_number(" exceeds maximum ", MAX_TENSOR_SIZE);
            m.append(tail.as_str());
            return Err(GgmlError::TensorAllocationFailed(m));
        }
        proof {
            reveal_strlit("cpu:0");
        }
        let device = if spec.bytes > LARGE_TENSOR {
            String::from_str("cpu:0")
        } else if self.detect_gpu_support() {
            String::from_str("cuda:0")
        } else {
            String::from_str("cpu:0")
        };
        Ok(TensorHandle { tensor_id: spec.tensor_id.clone(), device, offset: 0, size: spec.bytes })
    }

    /// Running a stage: one millisecond per 100 MiB of input, 5 to 1000; one
    /// output tensor on `cpu:0` as large as the input.
    pub fn execute_stage(&self, request: &StageExecution) -> (r: Result<StageWork, GgmlError>)
        requires
            input_bytes(request.input_tensors@) <= u64::MAX,
        ensures
            r matches Ok(w) && {
                let total = input_bytes(request.input_tensors@) as u64;
                &&& w.compute_ms == simulated_ms(total, 100, 5, 1000)
                &&& w.output_tensors@.len() == 1
                &&& w.output_tensors@[0].tensor_id@ == output_id(request.stage_id)
                &&& w.output_tensors@[0].device@ == cpu0()
                &&& w.output_tensors@[0].offset == 0
                &&& w.output_tensors@[0].size == total
            },
    {
        let total = total_input_bytes(&request.input_tensors);
        let compute_ms = simulated_delay(total, 100, 5, 1000);
        proof {
            reveal_strlit("cpu:0");
        }
        let mut outputs: Vec<TensorHandle> = Vec::new();
        outputs.push(TensorHandle {
            tensor_id: stage_output_id(request.stage_id),
            device: String::from_str("cpu:0"),
            offset: 0,
            size: total,
        });
        Ok(StageWork { compute_ms, output_tensors: outputs })
    }

    /// Moving a tensor: one millisecond per 50 MiB, 1 to 5000.
    pub fn transfer_tensor(&self, request: &TensorTransfer) -> (r: Result<TransferWork, GgmlError>)
        ensures
            r matches Ok(w) && w.transfer_ms == simulated_ms(request.bytes, 50, 1, 5000)
                && w.tensor_id@ == request.tensor_id@ && w.bytes_transferred == request.bytes,
    {
        let transfer_ms = simulated_delay(request.bytes, 50, 1, 5000);
        Ok(TransferWork { transfer_ms, tensor_id: request.tensor_id.clone(), bytes_transferred: request.bytes })
    }

    /// Unloading a shard always succeeds.
    pub fn unload(&self, handle: ShardHandle) -> (r: Result<(), GgmlError>)
        ensures
            r is Ok,
    {
        Ok(())
    }

    /// The number of models loaded; allocations and memory are not tracked.
    pub fn metrics(&self) -> (r: RuntimeMetrics)
        ensures
            r.loaded_models == self.models().len(),
            r.allocated_tensors == 0,
            r.memory_used_bytes == 0,
            r.gpu_memory_used_bytes == 0,
    {
        RuntimeMetrics {
            loaded_models: self.loaded_models.len(),
            allocated_tensors: 0,
            memory_used_bytes: 0,
            gpu_memory_used_bytes: 0,
        }
    }

    /// Loads a GGUF model from the bytes of the file at `path`; the path is
    /// recorded among the loaded models.
    pub fn load_gguf(&mut self, data: &[u8], path: &str) -> (r: Result<GgufModel, GgmlError>)
        ensures
            final(self).backend == old(self).backend,
            match parse_model(data@) {
                Err(e) => (r matches Err(GgmlError::ModelLoadFailed(m)) && m@ == error_text(e)) && final(self).models() == old(self).models(),
                Ok(g) => (r matches Ok(m) && model_view(m) == g) && final(self).models() == old(self).models().push(path@),
            },
    {
        let model = match GgufParser::parse_bytes(data) {
            Ok(m) => m,
            Err(e) => return Err(GgmlError::ModelLoadFailed(e.message())),
        };
        let ghost before = self.models();
        self.loaded_models.push(String::from_str(path));
        assert(self.models() =~= before.push(path@));
        Ok(model)
    }
}

} // verus!
