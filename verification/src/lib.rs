//! Verified core of the Model Surgery workbench: GGUF header parsing,
//! tensor classification, quantization recipes and the small protocols
//! around them.

pub mod api;
pub mod chat;
pub mod eval_backend;
pub mod gguf;
pub mod hardware;
pub mod harness;
pub mod model;
pub mod official;
pub mod progress;
pub mod quant;
pub mod runtime;
pub mod standard_eval;
pub mod text;
pub mod trace;
