//! TensorGrid: the verified core of a distributed AI compute runtime.

pub mod text;
pub mod gguf;
pub mod tcp;
pub mod kvmap;
pub mod types;
pub mod tensor_directory;
pub mod planner;
pub mod model_registry;
pub mod pipeline;
pub mod fine_tuning;
pub mod topology;
pub mod hardware;
pub mod runtimes;
pub mod runtime_adapter;
pub mod scheduler;
pub mod pairing;
pub mod coordinator;
pub mod node_agent;
pub mod rdma;
pub mod observability;
pub mod desktop;
pub mod quic;
