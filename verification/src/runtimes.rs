//! Runtime backends: what each can run, and the work of loading shards,
//! allocating tensors, running stages and moving tensors on it.
//!
//! The computation itself is simulated: each operation takes a time that
//! grows with the bytes involved, clamped to a range, which the caller waits
//! out; the results carry the measured time.

pub mod common;
pub mod cpu;




pub mod cuda;
pub mod rocm;
pub mod mlx;
pub mod ggml;
