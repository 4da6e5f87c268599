//! The engine's error type.
use vstd::prelude::*;

verus! {

/// An error raised by the engine, with a message for the user.
#[derive(Debug, PartialEq, Eq)]
pub enum EngineError {
    Error(String),
    GliumError(String),
    ImageError(String),
    ObjError(String),
    GltfError(String),
    AudioError(String),
    IoError(String),
    /// Loaded data breaks an invariant (mismatched lengths, bad indices);
    /// raised when a skeleton or an animation is built.
    DataIntegrity(String),
}

impl EngineError {
    /// The message carried by the error, whatever its kind.
    pub open spec fn msg(&self) -> String {
        match self {
            EngineError::Error(m) => *m,
            EngineError::GliumError(m) => *m,
            EngineError::ImageError(m) => *m,
            EngineError::ObjError(m) => *m,
            EngineError::GltfError(m) => *m,
            EngineError::AudioError(m) => *m,
            EngineError::IoError(m) => *m,
            EngineError::DataIntegrity(m) => *m,
        }
    }

    /// The message carried by the error.
    pub fn message(&self) -> (r: &String)
        ensures
            *r == self.msg(),
    {
        match self {
            EngineError::Error(m) => m,
            EngineError::GliumError(m) => m,
            EngineError::ImageError(m) => m,
            EngineError::ObjError(m) => m,
            EngineError::GltfError(m) => m,
            EngineError::AudioError(m) => m,
            EngineError::IoError(m) => m,
            EngineError::DataIntegrity(m) => m,
        }
    }
}

} // verus!
