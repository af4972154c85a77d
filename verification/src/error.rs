//! The failure taxonomy of the engine.

use vstd::prelude::*;
use vstd::string::StringExecFns;

verus! {

/// Why a request failed. `MalformedInput` and `EmptyInput` are client faults;
/// `ProcessingFailed` is a server fault and carries the external tool's own
/// diagnostic text.
#[derive(Debug)]
pub enum EngineError {
    MalformedInput(String),
    EmptyInput,
    ProcessingFailed(String),
}

/// The HTTP status that reports `e`: 400 for client faults, 500 for
/// processing failures.
pub open spec fn status_of(e: EngineError) -> u16 {
    match e {
        EngineError::MalformedInput(_) => 400,
        EngineError::EmptyInput => 400,
        EngineError::ProcessingFailed(_) => 500,
    }
}

/// The diagnostic text of `e`.
pub open spec fn message_of(e: EngineError) -> Seq<char> {
    match e {
        EngineError::MalformedInput(m) => m@,
        EngineError::EmptyInput => "No audio data received"@,
        EngineError::ProcessingFailed(m) => m@,
    }
}

impl EngineError {
    /// The HTTP status code under which this failure is reported.
    pub fn status_code(&self) -> (c: u16)
        ensures
            c == status_of(*self),
    {
        match self {
            EngineError::MalformedInput(_) => 400,
            EngineError::EmptyInput => 400,
            EngineError::ProcessingFailed(_) => 500,
        }
    }

    /// The diagnostic text carried to the caller.
    pub fn message(&self) -> (m: String)
        ensures
            m@ == message_of(*self),
    {
        match self {
            EngineError::MalformedInput(m) => m.clone(),
            EngineError::EmptyInput => String::from_str("No audio data received"),
            EngineError::ProcessingFailed(m) => m.clone(),
        }
    }
}

} // verus!
