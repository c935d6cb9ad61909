//! Values exchanged with the native inference runtime.

use vstd::prelude::*;

use crate::text::{decimal, push_decimal};

verus! {

/// Why the runtime stopped generating.
#[derive(PartialEq, Eq, Structural, Clone, Copy, Debug)]
pub enum ChatFinishReason {
    Stop,
    Length,
    Eos,
}

impl ChatFinishReason {
    /// Reads the runtime's numeric finish reason.
    pub fn from_native(value: u32) -> (r: Result<Self, String>)
        ensures
            value == 0 ==> r == Ok::<Self, String>(ChatFinishReason::Stop),
            value == 1 ==> r == Ok::<Self, String>(ChatFinishReason::Length),
            value == 2 ==> r == Ok::<Self, String>(ChatFinishReason::Eos),
            value > 2 ==> (r matches Err(m) && m@ == "unknown native chat finish reason: "@ + decimal(
                value as nat,
            )),
    {
        if value == 0 {
            Ok(ChatFinishReason::Stop)
        } else if value == 1 {
            Ok(ChatFinishReason::Length)
        } else if value == 2 {
            Ok(ChatFinishReason::Eos)
        } else {
            let mut m = String::from_str("unknown native chat finish reason: ");
            push_decimal(&mut m, value as u64);
            Err(m)
        }
    }
}

/// The OpenAI finish-reason label of a runtime finish reason.
pub open spec fn finish_label(reason: ChatFinishReason) -> Seq<char> {
    match reason {
        ChatFinishReason::Length => "length"@,
        _ => "stop"@,
    }
}

/// Counters a runtime chat session keeps.
#[derive(PartialEq, Eq, Structural, Clone, Copy, Debug)]
pub struct MsRuntimeChatSessionCounters {
    pub model_load_count: u64,
    pub context_reset_count: u64,
    pub completion_count: u64,
}

/// What the runtime reports about a GGUF file.
#[derive(PartialEq, Eq, Structural, Clone, Copy, Debug)]
pub struct MsGgufSummary {
    pub version: u32,
    pub tensor_count: u64,
    pub metadata_count: u64,
    pub alignment: u64,
    pub data_offset: u64,
}

} // verus!
