//! Failures of the media engine.

use crate::text::concat2;
use vstd::prelude::*;

verus! {

/// Why the media engine could not do its work.
#[derive(Debug, PartialEq, Eq)]
pub enum EngineError {
    Unavailable(String),
    Unsupported(String),
    InvalidMedia(String),
    Cancelled,
    Failed(String),
}

/// The words for an engine failure.
pub open spec fn engine_error_text(e: EngineError) -> Seq<char> {
    match e {
        EngineError::Unavailable(m) => "media engine unavailable: "@ + m@,
        EngineError::Unsupported(m) => "unsupported media: "@ + m@,
        EngineError::InvalidMedia(m) => "invalid media: "@ + m@,
        EngineError::Cancelled => "conversion cancelled"@,
        EngineError::Failed(m) => "conversion failed: "@ + m@,
    }
}

impl EngineError {
    pub fn message(&self) -> (r: String)
        ensures
            r@ == engine_error_text(*self),
    {
        match self {
            EngineError::Unavailable(m) => concat2("media engine unavailable: ", m.as_str()),
            EngineError::Unsupported(m) => concat2("unsupported media: ", m.as_str()),
            EngineError::InvalidMedia(m) => concat2("invalid media: ", m.as_str()),
            EngineError::Cancelled => "conversion cancelled".to_owned(),
            EngineError::Failed(m) => concat2("conversion failed: ", m.as_str()),
        }
    }
}

impl Clone for EngineError {
    fn clone(&self) -> (r: Self)
        ensures
            r == *self,
    {
        match self {
            EngineError::Unavailable(m) => EngineError::Unavailable(m.clone()),
            EngineError::Unsupported(m) => EngineError::Unsupported(m.clone()),
            EngineError::InvalidMedia(m) => EngineError::InvalidMedia(m.clone()),
            EngineError::Cancelled => EngineError::Cancelled,
            EngineError::Failed(m) => EngineError::Failed(m.clone()),
        }
    }
}

} // verus!
