//! The progress and output events the workbench reports to its window.

use vstd::prelude::*;

use crate::text::trim;

verus! {

/// A line of benchmark output.
#[derive(Clone, Debug)]
pub struct BenchmarkOutputEvent {
    pub message: String,
}

/// A line of output of the local API server.
#[derive(Clone, Debug)]
pub struct ApiOutputEvent {
    pub message: String,
}

/// The stage a long-running operation is in.
#[derive(Clone, Copy, Debug, PartialEq, Eq, Structural)]
pub enum ProgressStage {
    Requantizing,
    Writing,
    Loading,
    Benchmarking,
}

/// The message shown for a stage, given the detail of the step.
pub open spec fn stage_text(stage: ProgressStage, info: Seq<char>) -> Seq<char> {
    match stage {
        ProgressStage::Requantizing => "Requantizing: "@ + info,
        ProgressStage::Writing => "Writing: "@ + info,
        ProgressStage::Loading => "Loading model into VRAM..."@,
        ProgressStage::Benchmarking => "Running inference benchmark..."@,
    }
}

/// The message shown for a stage: requantizing and writing name the step,
/// loading and benchmarking have a fixed text.
pub fn stage_message(stage: ProgressStage, info: &str) -> (r: String)
    ensures
        r@ == stage_text(stage, info@),
{
    match stage {
        ProgressStage::Requantizing => {
            let mut m = String::from_str("Requantizing: ");
            m.append(info);
            m
        },
        ProgressStage::Writing => {
            let mut m = String::from_str("Writing: ");
            m.append(info);
            m
        },
        ProgressStage::Loading => String::from_str("Loading model into VRAM..."),
        ProgressStage::Benchmarking => String::from_str("Running inference benchmark..."),
    }
}

/// The benchmark output event of a message; blank messages are not sent.
pub fn benchmark_output_event(message: String) -> (r: Option<BenchmarkOutputEvent>)
    ensures
        match r {
            Some(e) => trim(message@).len() > 0 && e.message == message,
            None => trim(message@).len() == 0,
        },
{
    if crate::text::is_blank(message.as_str()) {
        None
    } else {
        Some(BenchmarkOutputEvent { message })
    }
}

/// The API output event of a message; blank messages are not sent.
pub fn api_output_event(message: String) -> (r: Option<ApiOutputEvent>)
    ensures
        match r {
            Some(e) => trim(message@).len() > 0 && e.message == message,
            None => trim(message@).len() == 0,
        },
{
    if crate::text::is_blank(message.as_str()) {
        None
    } else {
        Some(ApiOutputEvent { message })
    }
}

} // verus!
