//! Error type of the library.

use vstd::prelude::*;

use crate::text::concat3;

verus! {

/// The kind of an [`LFM2Error`], without its message.
#[derive(Debug, Clone, Copy, PartialEq, Eq, Structural)]
pub enum ErrorKind {
    Onnx,
    ModelNotFound,
    Config,
    Tokenizer,
    Audio,
    Generation,
    Io,
    Serialization,
    Ndarray,
    InvalidAudioFormat,
    Cache,
    Embedding,
}

/// Errors of the LFM2-Audio runtime. Errors raised by the inference runtime,
/// the file system, the JSON parser or the array library carry their message.
#[derive(Debug, Clone)]
pub enum LFM2Error {
    Onnx(String),
    ModelNotFound(String),
    Config(String),
    Tokenizer(String),
    Audio(String),
    Generation(String),
    Io(String),
    Serialization(String),
    Ndarray(String),
    InvalidAudioFormat(String),
    Cache(String),
    Embedding(String),
}

pub type Result<T> = core::result::Result<T, LFM2Error>;

impl View for LFM2Error {
    type V = (ErrorKind, Seq<char>);

    open spec fn view(&self) -> (ErrorKind, Seq<char>) {
        match self {
            LFM2Error::Onnx(m) => (ErrorKind::Onnx, m@),
            LFM2Error::ModelNotFound(m) => (ErrorKind::ModelNotFound, m@),
            LFM2Error::Config(m) => (ErrorKind::Config, m@),
            LFM2Error::Tokenizer(m) => (ErrorKind::Tokenizer, m@),
            LFM2Error::Audio(m) => (ErrorKind::Audio, m@),
            LFM2Error::Generation(m) => (ErrorKind::Generation, m@),
            LFM2Error::Io(m) => (ErrorKind::Io, m@),
            LFM2Error::Serialization(m) => (ErrorKind::Serialization, m@),
            LFM2Error::Ndarray(m) => (ErrorKind::Ndarray, m@),
            LFM2Error::InvalidAudioFormat(m) => (ErrorKind::InvalidAudioFormat, m@),
            LFM2Error::Cache(m) => (ErrorKind::Cache, m@),
            LFM2Error::Embedding(m) => (ErrorKind::Embedding, m@),
        }
    }
}

/// The prefix with which each kind of error is displayed.
pub open spec fn kind_prefix(k: ErrorKind) -> Seq<char> {
    match k {
        ErrorKind::Onnx => "ONNX error"@,
        ErrorKind::ModelNotFound => "Model not found"@,
        ErrorKind::Config => "Invalid configuration"@,
        ErrorKind::Tokenizer => "Tokenizer error"@,
        ErrorKind::Audio => "Audio processing error"@,
        ErrorKind::Generation => "Generation error"@,
        ErrorKind::Io => "IO error"@,
        ErrorKind::Serialization => "Serialization error"@,
        ErrorKind::Ndarray => "NDArray error"@,
        ErrorKind::InvalidAudioFormat => "Invalid audio format"@,
        ErrorKind::Cache => "Cache error"@,
        ErrorKind::Embedding => "Embedding error"@,
    }
}

impl LFM2Error {
    /// The human-readable message: the kind's prefix, a colon and the detail.
    pub fn to_string(&self) -> (s: String)
        ensures
            s@ == kind_prefix(self@.0) + ": "@ + self@.1,
    {
        match self {
            LFM2Error::Onnx(m) => concat3("ONNX error", ": ", m.as_str()),
            LFM2Error::ModelNotFound(m) => concat3("Model not found", ": ", m.as_str()),
            LFM2Error::Config(m) => concat3("Invalid configuration", ": ", m.as_str()),
            LFM2Error::Tokenizer(m) => concat3("Tokenizer error", ": ", m.as_str()),
            LFM2Error::Audio(m) => concat3("Audio processing error", ": ", m.as_str()),
            LFM2Error::Generation(m) => concat3("Generation error", ": ", m.as_str()),
            LFM2Error::Io(m) => concat3("IO error", ": ", m.as_str()),
            LFM2Error::Serialization(m) => concat3("Serialization error", ": ", m.as_str()),
            LFM2Error::Ndarray(m) => concat3("NDArray error", ": ", m.as_str()),
            LFM2Error::InvalidAudioFormat(m) => concat3("Invalid audio format", ": ", m.as_str()),
            LFM2Error::Cache(m) => concat3("Cache error", ": ", m.as_str()),
            LFM2Error::Embedding(m) => concat3("Embedding error", ": ", m.as_str()),
        }
    }
}

} // verus!
