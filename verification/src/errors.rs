//! Error types of the library.
use vstd::prelude::*;

verus! {

/// `std::string::FromUtf8Error`, carried by the conversion errors below.
#[verifier::external_type_specification]
#[verifier::external_body]
pub struct ExFromUtf8Error(std::string::FromUtf8Error);

/// Failure of a forward pass.
#[derive(Debug, PartialEq, Eq, Structural)]
pub enum DecodeError {
    NoKvCacheSlot,
    NTokensZero,
    Unknown(i32),
}

impl DecodeError {
    /// Maps a backend status code to the error it stands for: `1` means no KV-cache
    /// slot, `-1` means an empty batch, anything else is reported as is.
    pub fn from(value: i32) -> (res: Self)
        ensures
            value == 1 ==> res == DecodeError::NoKvCacheSlot,
            value == -1 ==> res == DecodeError::NTokensZero,
            value != 1 && value != -1 ==> res == DecodeError::Unknown(value),
    {
        match value {
            1 => DecodeError::NoKvCacheSlot,
            -1 => DecodeError::NTokensZero,
            i => DecodeError::Unknown(i),
        }
    }
}

/// Failure while choosing the next token.
#[derive(Debug)]
pub enum SamplingError {
    Error(String),
    Stop,
}

/// Failure of a foreign-function call.
#[derive(Debug)]
pub enum FfiError {
    NullPtr,
    CstAllocationError,
    CintConversionError,
    Error(String),
}

/// Failure while rendering a token as bytes.
#[derive(Debug)]
pub enum TokenToStringError {
    UnknownTokenType,
    InsufficientBufferSpace(i32),
    FromUtf8Error(std::string::FromUtf8Error),
    InvalidLstrip,
    FfiError(FfiError),
    Unsupported,
}

/// Failure while tokenising text.
#[derive(Debug)]
pub enum StringToTokenError {
    FromUtf8Error(std::string::FromUtf8Error),
    FfiError(FfiError),
    Unsupported,
}

/// Failure while adding tokens to a batch.
#[derive(Debug)]
pub enum BatchError {
    InsufficientSpace(usize),
    EmptyBuffer,
    NtokTooLarge(usize),
    NseqTooLarge(usize),
    InternalError(String),
}

/// Failure while editing or restoring a context.
#[derive(Debug)]
pub enum ContextError {
    Error(String),
    FfiError(FfiError),
    PosNotFound,
    Unsupported,
}

/// Failure of an inference call.
#[derive(Debug)]
pub enum InferenceError {
    Error(String),
    BatchError(BatchError),
    FfiError(FfiError),
    StringToTokenError(StringToTokenError),
    TokenToStringError(TokenToStringError),
    DecodeError(DecodeError),
    SamplingError(SamplingError),
    ContextError(ContextError),
    InvalidRole,
    Unsupported,
    EmptyBatch,
    IncompleteAnswer,
    InvalidJson,
    InvalidJsonSchema(String),
}

/// Failure while loading model weights.
#[derive(Debug)]
pub enum GgufLoaderError {
    InvalidPath,
    BadModel,
    FfiError(FfiError),
}

/// Failure while building a context.
#[derive(Debug)]
pub enum ContextBuilderError {
    FfiError(FfiError),
}

/// An unknown formatter name.
#[derive(Debug)]
pub enum ModelFormatterError {
    UnknownModelFormatter(String),
}

/// Failure while building a grammar-constrained parser.
#[derive(Debug)]
pub enum GuidanceError {
    Error(String),
    FfiError(FfiError),
}

} // verus!
