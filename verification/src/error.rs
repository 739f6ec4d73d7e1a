//! Error types of the library.
use vstd::prelude::*;

verus! {

/// Errors of the OCR pipeline.
#[derive(Debug, Clone, PartialEq, Eq)]
pub enum OcrError {
    /// Image preprocessing failed.
    Preprocessing(String),
    /// A model could not be loaded.
    ModelLoading(String),
    /// Text detection failed.
    Detection(String),
    /// Text recognition failed.
    Recognition(String),
    /// Direction classification failed.
    DirectionClassification(String),
    /// Sorting into reading order failed.
    ReadingOrder(String),
    /// Markdown generation failed.
    MarkdownGeneration(String),
    /// Inference failed.
    Inference(String),
    /// The image format is not valid.
    InvalidFormat(String),
    /// An ONNX operation is not supported.
    UnsupportedOperation(String),
}

/// Errors of the speech pipeline.
///
/// The error for audio that is too long carries a duration in seconds, a
/// float; the application reports it and it has no variant here.
#[derive(Debug, Clone, PartialEq, Eq)]
pub enum SttError {
    /// Audio preprocessing failed.
    Preprocessing(String),
    /// A model could not be loaded.
    ModelLoading(String),
    /// The encoder failed.
    Encoder(String),
    /// The decoder failed.
    Decoder(String),
    /// Tokenization failed.
    Tokenization(String),
    /// The key-value cache was misused.
    KvCache(String),
    /// The audio format is not valid.
    InvalidFormat(String),
    /// An ONNX operation is not supported.
    UnsupportedOperation(String),
}

/// Errors that the library's own functions report.
///
/// The variants that wrap the errors of the database and of serialization
/// belong to the application around the library.
#[derive(Debug, Clone, PartialEq, Eq)]
pub enum ShuseiError {
    /// An OCR error.
    Ocr(OcrError),
    /// A speech error.
    Stt(SttError),
    /// An input or output failed, as its message says.
    Io(String),
    /// A platform facility is missing or failed.
    Platform(String),
    /// A model file was not found.
    ModelNotFound(String),
    /// Image processing failed.
    ImageProcessing(String),
    /// Audio processing failed.
    AudioProcessing(String),
    /// Storage failed.
    Storage(String),
    /// An internal error.
    Internal(String),
}

} // verus!
