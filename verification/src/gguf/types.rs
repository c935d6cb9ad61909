//! The model description produced by the GGUF reader.

use vstd::prelude::*;

verus! {

/// Model-wide facts read from the GGUF header.
#[derive(Clone, Debug)]
pub struct GgufMetadata {
    pub name: String,
    pub architecture: String,
    pub total_params: u64,
    pub total_size_fp16: u64,
}

/// One tensor of the model, as listed in the GGUF tensor table.
#[derive(Clone, Debug)]
pub struct TensorInfo {
    pub name: String,
    pub shape: Vec<u64>,
    pub current_quant: String,
    pub size_bytes: u64,
    pub layer_index: i32,
    pub layer_group: String,
    pub quant_preflight: TensorQuantPreflight,
}

/// Which quantization targets a tensor may be converted to.
#[derive(Clone, Debug, PartialEq)]
pub struct TensorQuantPreflight {
    pub can_quantize: bool,
    pub allowed_target_quants: Vec<String>,
    pub blocked_reason: Option<String>,
}

/// The preflight is blocked with exactly `reason` and allows nothing.
pub open spec fn is_blocked_with(p: TensorQuantPreflight, reason: Seq<char>) -> bool {
    &&& !p.can_quantize
    &&& p.allowed_target_quants@.len() == 0
    &&& p.blocked_reason matches Some(r) && r@ == reason
}

impl TensorQuantPreflight {
    /// The placeholder a tensor carries before its preflight has run.
    pub fn pending() -> (p: Self)
        ensures
            is_blocked_with(p, "quantization preflight has not run"@),
    {
        TensorQuantPreflight {
            can_quantize: false,
            allowed_target_quants: Vec::new(),
            blocked_reason: Some(String::from_str("quantization preflight has not run")),
        }
    }
}

/// A parsed model: its metadata, tensors and size totals.
#[derive(Clone, Debug)]
pub struct ModelInfo {
    pub metadata: GgufMetadata,
    pub tensors: Vec<TensorInfo>,
    pub current_uniform_quant: String,
    pub total_size_bytes: u64,
}

} // verus!
