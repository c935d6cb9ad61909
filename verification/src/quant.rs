//! Quantization targets: per-tensor preflight and the editable recipe.

pub mod preflight;
pub mod recipe;
pub mod tensor_set;
