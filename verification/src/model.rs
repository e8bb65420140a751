//! Summary of a loaded model.

use vstd::prelude::*;

verus! {

/// Model information
#[derive(Debug, Clone, Copy, PartialEq, Eq, Structural)]
pub struct ModelInfo {
    pub hidden_size: usize,
    pub vocab_size: usize,
    pub num_layers: usize,
    pub num_codebooks: usize,
}

} // verus!
