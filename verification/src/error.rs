//! The closed error taxonomy of the inference engine, and the caller-facing
//! error type.
//!
//! The engine reports every outcome as a numeric status code. The mapping
//! from codes to semantic error kinds is total: every code maps to exactly
//! one kind, and codes outside the known range map to `Other` rather than
//! failing.

use vstd::prelude::*;

verus! {

/// Status code reported by the engine for a successful call.
pub const EI_IMPULSE_OK: i32 = 0;

/// Status code for a shape mismatch between input and model.
pub const EI_IMPULSE_ERROR_SHAPES_DONT_MATCH: i32 = 1;

/// Status code for a canceled operation.
pub const EI_IMPULSE_CANCELED: i32 = 2;

/// Status code for a failed memory allocation.
pub const EI_IMPULSE_ALLOC_FAILED: i32 = 3;

/// Status code for memory exhaustion.
pub const EI_IMPULSE_OUT_OF_MEMORY: i32 = 4;

/// Status code for a null input tensor.
pub const EI_IMPULSE_INPUT_TENSOR_WAS_NULL: i32 = 5;

/// Status code for a null output tensor.
pub const EI_IMPULSE_OUTPUT_TENSOR_WAS_NULL: i32 = 6;

/// Status code for a TensorFlow Lite failure.
pub const EI_IMPULSE_TFLITE_ERROR: i32 = 7;

/// Status code for a failed TensorFlow Lite arena allocation.
pub const EI_IMPULSE_TFLITE_ARENA_ALLOC_FAILED: i32 = 8;

/// Status code for a failure in the DSP pipeline.
pub const EI_IMPULSE_DSP_ERROR: i32 = 9;

/// Status code for an input of invalid size.
pub const EI_IMPULSE_INVALID_SIZE: i32 = 10;

/// Status code for an operation that only supports image input.
pub const EI_IMPULSE_ONLY_SUPPORTED_FOR_IMAGES: i32 = 11;

/// Status code for an unsupported inferencing engine.
pub const EI_IMPULSE_UNSUPPORTED_INFERENCING_ENGINE: i32 = 12;

/// Status code for a generic inference failure.
pub const EI_IMPULSE_INFERENCE_ERROR: i32 = 13;

/// The closed set of semantic error kinds the engine can report.
///
/// `Other` absorbs every status code outside the known range, so the
/// mapping from codes to kinds never fails.
#[derive(Clone, Copy, Debug, PartialEq, Eq, Structural)]
pub enum EdgeImpulseError {
    Okay,
    ShapesDontMatch,
    Canceled,
    MemoryAllocationFailed,
    OutOfMemory,
    InputTensorWasNull,
    OutputTensorWasNull,
    TfliteError,
    TfliteArenaAllocFailed,
    DspError,
    InvalidSize,
    OnlySupportedForImages,
    UnsupportedEngine,
    InferenceError,
    Other,
}

/// The error kind a given engine status code denotes.
pub open spec fn spec_error_kind(status: int) -> EdgeImpulseError {
    if status == EI_IMPULSE_OK {
        EdgeImpulseError::Okay
    } else if status == EI_IMPULSE_ERROR_SHAPES_DONT_MATCH {
        EdgeImpulseError::ShapesDontMatch
    } else if status == EI_IMPULSE_CANCELED {
        EdgeImpulseError::Canceled
    } else if status == EI_IMPULSE_ALLOC_FAILED {
        EdgeImpulseError::MemoryAllocationFailed
    } else if status == EI_IMPULSE_OUT_OF_MEMORY {
        EdgeImpulseError::OutOfMemory
    } else if status == EI_IMPULSE_INPUT_TENSOR_WAS_NULL {
        EdgeImpulseError::InputTensorWasNull
    } else if status == EI_IMPULSE_OUTPUT_TENSOR_WAS_NULL {
        EdgeImpulseError::OutputTensorWasNull
    } else if status == EI_IMPULSE_TFLITE_ERROR {
        EdgeImpulseError::TfliteError
    } else if status == EI_IMPULSE_TFLITE_ARENA_ALLOC_FAILED {
        EdgeImpulseError::TfliteArenaAllocFailed
    } else if status == EI_IMPULSE_DSP_ERROR {
        EdgeImpulseError::DspError
    } else if status == EI_IMPULSE_INVALID_SIZE {
        EdgeImpulseError::InvalidSize
    } else if status == EI_IMPULSE_ONLY_SUPPORTED_FOR_IMAGES {
        EdgeImpulseError::OnlySupportedForImages
    } else if status == EI_IMPULSE_UNSUPPORTED_INFERENCING_ENGINE {
        EdgeImpulseError::UnsupportedEngine
    } else if status == EI_IMPULSE_INFERENCE_ERROR {
        EdgeImpulseError::InferenceError
    } else {
        EdgeImpulseError::Other
    }
}

impl EdgeImpulseError {
    /// Map a raw engine status code to its error kind.
    ///
    /// Total: unknown codes yield `Other`, the call itself never fails.
    pub fn from_status(status: i32) -> (r: EdgeImpulseError)
        ensures
            r == spec_error_kind(status as int),
    {
        match status {
            0 => EdgeImpulseError::Okay,
            1 => EdgeImpulseError::ShapesDontMatch,
            2 => EdgeImpulseError::Canceled,
            3 => EdgeImpulseError::MemoryAllocationFailed,
            4 => EdgeImpulseError::OutOfMemory,
            5 => EdgeImpulseError::InputTensorWasNull,
            6 => EdgeImpulseError::OutputTensorWasNull,
            7 => EdgeImpulseError::TfliteError,
            8 => EdgeImpulseError::TfliteArenaAllocFailed,
            9 => EdgeImpulseError::DspError,
            10 => EdgeImpulseError::InvalidSize,
            11 => EdgeImpulseError::OnlySupportedForImages,
            12 => EdgeImpulseError::UnsupportedEngine,
            13 => EdgeImpulseError::InferenceError,
            _ => EdgeImpulseError::Other,
        }
    }
}

/// Law: the status-code mapping is total and injective on the known range.
///
/// Every code of the closed taxonomy maps to its own kind, distinct from
/// every other code's kind, and every code outside the taxonomy maps to
/// `Other`. The mapping is a pure function of the code, so it is stable
/// across repeated calls by construction.
pub proof fn lemma_error_mapping_total()
    ensures
        forall|a: int, b: int|
            0 <= a <= 13 && 0 <= b <= 13 && a != b ==> spec_error_kind(a) != spec_error_kind(b),
        forall|c: int| !(0 <= c <= 13) ==> spec_error_kind(c) == EdgeImpulseError::Other,
{
}

/// Caller-facing error type of the model wrapper.
#[derive(Clone, Debug, PartialEq, Eq)]
pub enum EimError {
    InvalidPath,
    SocketError(String),
    ExecutionError(String),
    ModelNotInitialized,
    InvalidInput(String),
    JsonError(String),
    TimeoutError(String),
    Other(String),
}

/// How an engine error kind surfaces as a caller-facing error.
pub open spec fn spec_eim_error_of(error: EdgeImpulseError, r: EimError) -> bool {
    match error {
        EdgeImpulseError::Okay => r matches EimError::Other(m) && m@ == "Unexpected OK status"@,
        EdgeImpulseError::ShapesDontMatch => r matches EimError::InvalidInput(m) && m@
            == "Shapes don't match"@,
        EdgeImpulseError::Canceled => r matches EimError::ExecutionError(m) && m@
            == "Operation canceled"@,
        EdgeImpulseError::MemoryAllocationFailed => r matches EimError::ExecutionError(m) && m@
            == "Memory allocation failed"@,
        EdgeImpulseError::OutOfMemory => r matches EimError::ExecutionError(m) && m@
            == "Out of memory"@,
        EdgeImpulseError::InputTensorWasNull => r matches EimError::InvalidInput(m) && m@
            == "Input tensor was null"@,
        EdgeImpulseError::OutputTensorWasNull => r matches EimError::ExecutionError(m) && m@
            == "Output tensor was null"@,
        EdgeImpulseError::TfliteError => r matches EimError::ExecutionError(m) && m@
            == "TensorFlow Lite error"@,
        EdgeImpulseError::TfliteArenaAllocFailed => r matches EimError::ExecutionError(m) && m@
            == "TensorFlow Lite arena allocation failed"@,
        EdgeImpulseError::DspError => r matches EimError::ExecutionError(m) && m@ == "DSP error"@,
        EdgeImpulseError::InvalidSize => r matches EimError::InvalidInput(m) && m@
            == "Invalid size"@,
        EdgeImpulseError::OnlySupportedForImages => r matches EimError::InvalidInput(m) && m@
            == "Only image input is supported"@,
        EdgeImpulseError::UnsupportedEngine => r matches EimError::ExecutionError(m) && m@
            == "Unsupported inferencing engine"@,
        EdgeImpulseError::InferenceError => r matches EimError::ExecutionError(m) && m@
            == "Inference error"@,
        EdgeImpulseError::Other => r matches EimError::Other(m) && m@
            == "Unknown error occurred"@,
    }
}

impl EimError {
    /// Translate an engine error kind into the caller-facing error.
    pub fn from(error: EdgeImpulseError) -> (r: EimError)
        ensures
            spec_eim_error_of(error, r),
    {
        match error {
            EdgeImpulseError::Okay => EimError::Other("Unexpected OK status".to_owned()),
            EdgeImpulseError::ShapesDontMatch => EimError::InvalidInput(
                "Shapes don't match".to_owned(),
            ),
            EdgeImpulseError::Canceled => EimError::ExecutionError("Operation canceled".to_owned()),
            EdgeImpulseError::MemoryAllocationFailed => EimError::ExecutionError(
                "Memory allocation failed".to_owned(),
            ),
            EdgeImpulseError::OutOfMemory => EimError::ExecutionError("Out of memory".to_owned()),
            EdgeImpulseError::InputTensorWasNull => EimError::InvalidInput(
                "Input tensor was null".to_owned(),
            ),
            EdgeImpulseError::OutputTensorWasNull => EimError::ExecutionError(
                "Output tensor was null".to_owned(),
            ),
            EdgeImpulseError::TfliteError => EimError::ExecutionError(
                "TensorFlow Lite error".to_owned(),
            ),
            EdgeImpulseError::TfliteArenaAllocFailed => EimError::ExecutionError(
                "TensorFlow Lite arena allocation failed".to_owned(),
            ),
            EdgeImpulseError::DspError => EimError::ExecutionError("DSP error".to_owned()),
            EdgeImpulseError::InvalidSize => EimError::InvalidInput("Invalid size".to_owned()),
            EdgeImpulseError::OnlySupportedForImages => EimError::InvalidInput(
                "Only image input is supported".to_owned(),
            ),
            EdgeImpulseError::UnsupportedEngine => EimError::ExecutionError(
                "Unsupported inferencing engine".to_owned(),
            ),
            EdgeImpulseError::InferenceError => EimError::ExecutionError(
                "Inference error".to_owned(),
            ),
            EdgeImpulseError::Other => EimError::Other("Unknown error occurred".to_owned()),
        }
    }
}

} // verus!
