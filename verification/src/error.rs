//! Error kinds surfaced by the orchestration layer.

use vstd::prelude::*;

verus! {

/// Every failure the library reports, each carrying a human-readable message.
///
/// - `ConfigIo`: a configuration file existed but could not be read.
/// - `ConfigParse`: a configuration file could not be parsed.
/// - `EngineUnavailable`: the bridge script or engine server is missing or
///   unreachable.
/// - `EngineProtocol`: the engine answered, but its output does not follow
///   the wire protocol.
/// - `EngineExecution`: the engine ran and reported a failure (non-zero exit
///   or non-2xx response).
/// - `Validation`: a caller-supplied parameter is out of range.
/// - `Filesystem`: an archive move or watch subscription failed.
#[derive(Debug)]
pub enum OcrError {
    ConfigIo(String),
    ConfigParse(String),
    EngineUnavailable(String),
    EngineProtocol(String),
    EngineExecution(String),
    Validation(String),
    Filesystem(String),
}

impl OcrError {
    /// The message carried by the error, whichever kind it is.
    pub open spec fn spec_message(self) -> String {
        match self {
            OcrError::ConfigIo(m) => m,
            OcrError::ConfigParse(m) => m,
            OcrError::EngineUnavailable(m) => m,
            OcrError::EngineProtocol(m) => m,
            OcrError::EngineExecution(m) => m,
            OcrError::Validation(m) => m,
            OcrError::Filesystem(m) => m,
        }
    }

    /// Returns the carried message.
    pub fn message(&self) -> (r: String)
        ensures
            r == self.spec_message(),
    {
        match self {
            OcrError::ConfigIo(m) => m.clone(),
            OcrError::ConfigParse(m) => m.clone(),
            OcrError::EngineUnavailable(m) => m.clone(),
            OcrError::EngineProtocol(m) => m.clone(),
            OcrError::EngineExecution(m) => m.clone(),
            OcrError::Validation(m) => m.clone(),
            OcrError::Filesystem(m) => m.clone(),
        }
    }
}

} // verus!
