//! Error taxonomy for the generation pipeline.

use vstd::prelude::*;

verus! {

/// One typed failure of the pipeline or of model resolution.
///
/// Every variant but `EmptyResponse` carries a human-readable detail
/// string; [`LlmError::message`] renders the whole error as text.
#[derive(Debug, Clone)]
pub enum LlmError {
    /// A stream or filesystem operation failed.
    Io(String),
    /// The captured standard output was not valid UTF-8.
    Utf8(String),
    /// The external executable could not be launched at all.
    ProcessSpawn(String),
    /// The process ran but exited with a failure status.
    ProcessExecution(String),
    /// A model name did not resolve, or the resolved file is missing.
    InvalidModelPath(String),
    /// The process succeeded but wrote only whitespace.
    EmptyResponse,
}

/// The rendered text of an error, as a sequence of characters.
pub open spec fn message_spec(e: LlmError) -> Seq<char> {
    match e {
        LlmError::Io(d) => "IO error: "@ + d@,
        LlmError::Utf8(d) => "UTF-8 conversion error: "@ + d@,
        LlmError::ProcessSpawn(d) => "Process spawn error: "@ + d@,
        LlmError::ProcessExecution(d) => "Process execution error: "@ + d@,
        LlmError::InvalidModelPath(d) => "Invalid model path: "@ + d@,
        LlmError::EmptyResponse => "Empty response from LLM"@,
    }
}

impl LlmError {
    /// Renders the error as one diagnostic line.
    pub fn message(&self) -> (r: String)
        ensures
            r@ == message_spec(*self),
    {
        match self {
            LlmError::Io(d) => String::from_str("IO error: ").concat(d.as_str()),
            LlmError::Utf8(d) => String::from_str("UTF-8 conversion error: ").concat(d.as_str()),
            LlmError::ProcessSpawn(d) => String::from_str("Process spawn error: ").concat(
                d.as_str(),
            ),
            LlmError::ProcessExecution(d) => String::from_str("Process execution error: ").concat(
                d.as_str(),
            ),
            LlmError::InvalidModelPath(d) => String::from_str("Invalid model path: ").concat(
                d.as_str(),
            ),
            LlmError::EmptyResponse => String::from_str("Empty response from LLM"),
        }
    }
}

} // verus!
