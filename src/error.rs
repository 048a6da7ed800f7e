use vstd::prelude::*;

verus! {

/// Every way an engine operation can fail.
#[derive(Debug, Clone, Copy, PartialEq, Eq, Structural)]
pub enum TesseractError {
    /// A lock guarding the engine or its configuration was poisoned.
    MutexLockError,
    /// The engine rejected an initialisation.
    InitError,
    /// The engine rejected a variable assignment.
    SetVariableError,
    /// The engine has no variable of the requested name.
    GetVariableError,
    /// The engine handed back no object where one was expected.
    NullPointerError,
    /// A recognition or text-producing call failed.
    OcrError,
    /// An image width or height was not strictly positive.
    InvalidDimensions,
    /// An image's bytes per pixel was not strictly positive.
    InvalidBytesPerPixel,
    /// An image row was shorter than its pixels need.
    InvalidBytesPerLine,
    /// An image buffer was shorter than its rows need.
    InvalidImageData,
    /// Multi-page processing failed.
    ProcessPagesError,
    /// The engine could not write a file.
    IoError,
    /// The engine handle was never created.
    UninitializedError,
    /// The engine returned text that is not valid UTF-8.
    Utf8Error,
}

} // verus!
