//! The GGUF model container: the types that describe a parsed model and the
//! byte-level header reader.

pub mod reader;
pub mod types;
