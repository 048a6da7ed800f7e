//! Lifecycle and result handling for a wrapped, non-thread-safe OCR engine.
//!
//! The engine itself is reached through a thin shell outside this crate. This
//! crate holds every decision that shell makes: when the engine is ended and
//! reinitialised, which variables are replayed onto it, how native results are
//! turned into values and errors, and which image buffers may be handed over.
use vstd::prelude::*;

pub mod arrays;
pub mod config;
pub mod cursors;
pub mod error;
pub mod image;
pub mod lifecycle;
pub mod page_seg_mode;
pub mod results;

pub use config::TesseractConfiguration;
pub use error::TesseractError;
pub use lifecycle::{EngineCall, LifecycleManager, Step};
pub use page_seg_mode::TessPageSegMode;

verus! {

} // verus!
