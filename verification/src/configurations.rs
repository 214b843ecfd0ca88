//! Settings of a training node.

use vstd::prelude::*;

use crate::node::RunningMode;

verus! {

/// Compute backend used for the neural network math: `Cpu` (the default)
/// or `Gpu`, which falls back to the CPU when no compatible adapter exists.
#[derive(Clone, Copy, Debug, PartialEq, Eq, Structural)]
pub enum ComputeBackend {
    Cpu,
    Gpu,
}

impl Default for ComputeBackend {
    fn default() -> (backend: Self)
        ensures
            backend == ComputeBackend::Cpu,
    {
        ComputeBackend::Cpu
    }
}

/// The settings a node is started with.
#[derive(Clone, Debug)]
pub struct Configurations {
    pub interval_secs: u64,
    pub batch_size: u32,
    pub total_batches: usize,
    pub input_number: usize,
    pub output_number: usize,
    pub hidden_layers: usize,
    pub reply_capacity: usize,
    pub model_name: String,
    pub log_interval: u64,
    pub mode: RunningMode,
    pub backend: ComputeBackend,
}

} // verus!
